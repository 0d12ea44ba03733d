//! How far each module of a running update is.

use crate::text::{contains_str, contains_text};
use vstd::prelude::*;

verus! {

/// The modules of an update, in the order in which they run.
#[derive(Debug, Clone, Copy, PartialEq, Eq, Structural)]
pub enum Module {
    System,
    Flatpak,
    Brew,
    Distrobox,
}

/// How far a module is.
#[derive(Debug, Clone, Copy, PartialEq, Eq, Structural)]
pub enum ModuleStatus {
    Pending,
    Running,
    Complete,
    Failed,
}

/// How many modules there are.
pub const MODULE_COUNT: usize = 4;

/// The place of a module in the order in which they run.
pub open spec fn module_index(module: Module) -> int {
    match module {
        Module::System => 0,
        Module::Flatpak => 1,
        Module::Brew => 2,
        Module::Distrobox => 3,
    }
}

/// The module that a line of output announces.
pub open spec fn announced_module(line: Seq<char>) -> Option<Module> {
    if contains_text(line, "module_name=System"@) {
        Some(Module::System)
    } else if contains_text(line, "module_name=Flatpak"@) {
        Some(Module::Flatpak)
    } else if contains_text(line, "module_name=Brew"@) {
        Some(Module::Brew)
    } else if contains_text(line, "module_name=Distrobox"@) {
        Some(Module::Distrobox)
    } else {
        None
    }
}

/// The module that a line of output announces as starting.
pub fn detect_module_start(line: &str) -> (res: Option<Module>)
    ensures
        res == announced_module(line@),
{
    if contains_str(line, "module_name=System") {
        Some(Module::System)
    } else if contains_str(line, "module_name=Flatpak") {
        Some(Module::Flatpak)
    } else if contains_str(line, "module_name=Brew") {
        Some(Module::Brew)
    } else if contains_str(line, "module_name=Distrobox") {
        Some(Module::Distrobox)
    } else {
        None
    }
}

impl Module {
    /// All modules, in the order in which they run.
    pub fn all() -> (res: Vec<Module>)
        ensures
            res@ == seq![Module::System, Module::Flatpak, Module::Brew, Module::Distrobox],
    {
        vec![Module::System, Module::Flatpak, Module::Brew, Module::Distrobox]
    }

    /// The place of the module in the order in which they run.
    pub fn index(self) -> (res: usize)
        ensures
            res == module_index(self),
            res < MODULE_COUNT,
    {
        match self {
            Module::System => 0,
            Module::Flatpak => 1,
            Module::Brew => 2,
            Module::Distrobox => 3,
        }
    }

    /// The name of the module.
    pub fn name(self) -> (res: &'static str)
        ensures
            res@ == module_name(self),
    {
        match self {
            Module::System => "System",
            Module::Flatpak => "Flatpak",
            Module::Brew => "Brew",
            Module::Distrobox => "Distrobox",
        }
    }

    /// The module as a key.
    pub fn key(self) -> (res: &'static str)
        ensures
            res@ == module_key(self),
    {
        match self {
            Module::System => "system",
            Module::Flatpak => "flatpak",
            Module::Brew => "brew",
            Module::Distrobox => "distrobox",
        }
    }

    /// What the module updates.
    pub fn description(self) -> (res: &'static str)
        ensures
            res@ == module_description(self),
    {
        match self {
            Module::System => "OS image · bootc",
            Module::Flatpak => "Applications",
            Module::Brew => "Homebrew packages",
            Module::Distrobox => "Container environments",
        }
    }
}

/// What a module updates.
pub open spec fn module_description(module: Module) -> Seq<char> {
    match module {
        Module::System => "OS image · bootc"@,
        Module::Flatpak => "Applications"@,
        Module::Brew => "Homebrew packages"@,
        Module::Distrobox => "Container environments"@,
    }
}

/// The name of a module.
pub open spec fn module_name(module: Module) -> Seq<char> {
    match module {
        Module::System => "System"@,
        Module::Flatpak => "Flatpak"@,
        Module::Brew => "Brew"@,
        Module::Distrobox => "Distrobox"@,
    }
}

/// A module as a key.
pub open spec fn module_key(module: Module) -> Seq<char> {
    match module {
        Module::System => "system"@,
        Module::Flatpak => "flatpak"@,
        Module::Brew => "brew"@,
        Module::Distrobox => "distrobox"@,
    }
}

/// The name of the indicator that shows a status.
pub open spec fn status_page(status: ModuleStatus) -> Seq<char> {
    match status {
        ModuleStatus::Pending => "pending"@,
        ModuleStatus::Running => "running"@,
        ModuleStatus::Complete => "complete"@,
        ModuleStatus::Failed => "failed"@,
    }
}

/// The words below the name of a module with a status.
pub open spec fn status_subtitle(status: ModuleStatus, module: Module) -> Seq<char> {
    match status {
        ModuleStatus::Pending => module_description(module),
        ModuleStatus::Running => "Updating…"@,
        ModuleStatus::Complete => "Complete"@,
        ModuleStatus::Failed => "Failed"@,
    }
}

impl ModuleStatus {
    /// The name of the indicator that shows the status.
    pub fn page(self) -> (res: &'static str)
        ensures
            res@ == status_page(self),
    {
        match self {
            ModuleStatus::Pending => "pending",
            ModuleStatus::Running => "running",
            ModuleStatus::Complete => "complete",
            ModuleStatus::Failed => "failed",
        }
    }

    /// The words below the name of a module with this status.
    pub fn subtitle(self, module: Module) -> (res: &'static str)
        ensures
            res@ == status_subtitle(self, module),
    {
        match self {
            ModuleStatus::Pending => module.description(),
            ModuleStatus::Running => "Updating…",
            ModuleStatus::Complete => "Complete",
            ModuleStatus::Failed => "Failed",
        }
    }
}

/// What can happen to the list.
#[derive(Debug, Clone)]
pub enum UpdateListInput {
    /// A new update starts.
    Reset,
    /// The update printed a line.
    ProcessLine(String),
    /// Show or hide the output of each module.
    SetNerdMode(bool),
    /// The update succeeded.
    MarkAllComplete,
    /// The update failed.
    MarkCurrentFailed,
}

/// What an input holds.
pub enum UpdateListInputView {
    Reset,
    ProcessLine(Seq<char>),
    SetNerdMode(bool),
    MarkAllComplete,
    MarkCurrentFailed,
}

impl View for UpdateListInput {
    type V = UpdateListInputView;

    open spec fn view(&self) -> UpdateListInputView {
        match self {
            UpdateListInput::Reset => UpdateListInputView::Reset,
            UpdateListInput::ProcessLine(line) => UpdateListInputView::ProcessLine(line@),
            UpdateListInput::SetNerdMode(on) => UpdateListInputView::SetNerdMode(*on),
            UpdateListInput::MarkAllComplete => UpdateListInputView::MarkAllComplete,
            UpdateListInput::MarkCurrentFailed => UpdateListInputView::MarkCurrentFailed,
        }
    }
}

/// One module of the list: how far it is, and what it printed.
#[derive(Debug, Clone)]
pub struct ModuleEntry {
    pub status: ModuleStatus,
    pub log_text: String,
}

/// What a module of the list holds.
#[verifier::ext_equal]
pub struct ModuleEntryView {
    pub status: ModuleStatus,
    pub log_text: Seq<char>,
}

impl View for ModuleEntry {
    type V = ModuleEntryView;

    open spec fn view(&self) -> ModuleEntryView {
        ModuleEntryView { status: self.status, log_text: self.log_text@ }
    }
}

/// The modules of a running update.
#[derive(Debug, Clone)]
pub struct UpdateList {
    modules: Vec<ModuleEntry>,
    current_module: Option<Module>,
    nerd_mode: bool,
}

/// What the list holds.
#[verifier::ext_equal]
pub struct UpdateListView {
    pub modules: Seq<ModuleEntryView>,
    pub current_module: Option<Module>,
    pub nerd_mode: bool,
}

impl View for UpdateList {
    type V = UpdateListView;

    closed spec fn view(&self) -> UpdateListView {
        UpdateListView {
            modules: self.modules@.map_values(|m: ModuleEntry| m@),
            current_module: self.current_module,
            nerd_mode: self.nerd_mode,
        }
    }
}

/// A log with a line added below.
pub open spec fn with_line(log: Seq<char>, line: Seq<char>) -> Seq<char> {
    if log.len() == 0 {
        line
    } else {
        log.push('\n') + line
    }
}

/// The line reports a failure.
pub open spec fn reports_failure(line: Seq<char>) -> bool {
    contains_text(line, "level=ERROR"@) || contains_text(line, "module_fail"@)
}

impl UpdateListView {
    /// There is an entry for each module, and only the current module can be running.
    pub open spec fn wf(self) -> bool {
        &&& self.modules.len() == MODULE_COUNT
        &&& forall|i: int|
            0 <= i < MODULE_COUNT && (#[trigger] self.modules[i]).status == ModuleStatus::Running
                ==> (self.current_module matches Some(m) && module_index(m) == i)
    }

    /// The list with another status for a module.
    pub open spec fn with_status(self, module: Module, status: ModuleStatus) -> UpdateListView {
        let i = module_index(module);
        UpdateListView {
            modules: self.modules.update(i, ModuleEntryView { status, ..self.modules[i] }),
            ..self
        }
    }

    /// The list with a line added to what a module printed.
    pub open spec fn with_output(self, module: Module, line: Seq<char>) -> UpdateListView {
        let i = module_index(module);
        UpdateListView {
            modules: self.modules.update(
                i,
                ModuleEntryView {
                    log_text: with_line(self.modules[i].log_text, line),
                    ..self.modules[i]
                },
            ),
            ..self
        }
    }

    /// The status of a module.
    pub open spec fn status_of(self, module: Module) -> ModuleStatus {
        self.modules[module_index(module)].status
    }

    /// A module starts: the one that was running is complete.
    pub open spec fn started(self, module: Module) -> UpdateListView {
        let left = match self.current_module {
            Some(previous) => if self.status_of(previous) == ModuleStatus::Running {
                self.with_status(previous, ModuleStatus::Complete)
            } else {
                self
            },
            None => self,
        };
        UpdateListView { current_module: Some(module), ..left }.with_status(
            module,
            ModuleStatus::Running,
        )
    }

    /// The update printed a line: it may start a module, belongs to the current module,
    /// and may report its failure.
    pub open spec fn with_processed(self, line: Seq<char>) -> UpdateListView {
        let a = match announced_module(line) {
            Some(module) => self.started(module),
            None => self,
        };
        let b = match a.current_module {
            Some(module) => a.with_output(module, line),
            None => a,
        };
        match b.current_module {
            Some(module) => if reports_failure(line) {
                b.with_status(module, ModuleStatus::Failed)
            } else {
                b
            },
            None => b,
        }
    }

    /// What happens to the list.
    pub open spec fn step(self, input: UpdateListInputView) -> UpdateListView {
        match input {
            UpdateListInputView::Reset => fresh_list(),
            UpdateListInputView::ProcessLine(line) => self.with_processed(line),
            UpdateListInputView::SetNerdMode(on) => UpdateListView { nerd_mode: on, ..self },
            UpdateListInputView::MarkAllComplete => UpdateListView {
                modules: self.modules.map_values(
                    |m: ModuleEntryView|
                        if m.status == ModuleStatus::Running || m.status == ModuleStatus::Pending {
                            ModuleEntryView { status: ModuleStatus::Complete, ..m }
                        } else {
                            m
                        },
                ),
                current_module: None,
                nerd_mode: self.nerd_mode,
            },
            UpdateListInputView::MarkCurrentFailed => match self.current_module {
                Some(module) => if self.status_of(module) == ModuleStatus::Running {
                    self.with_status(module, ModuleStatus::Failed)
                } else {
                    self
                },
                None => self,
            },
        }
    }
}

/// The list at the start of an update.
pub open spec fn fresh_list() -> UpdateListView {
    UpdateListView {
        modules: Seq::new(
            MODULE_COUNT as nat,
            |i: int| ModuleEntryView { status: ModuleStatus::Pending, log_text: Seq::empty() },
        ),
        current_module: None,
        nerd_mode: false,
    }
}

impl UpdateList {
    /// The list is well formed.
    pub open spec fn wf(&self) -> bool {
        self@.wf()
    }

    /// All modules pending.
    pub fn new() -> (res: UpdateList)
        ensures
            res@ == fresh_list(),
            res.wf(),
    {
        let mut modules: Vec<ModuleEntry> = Vec::new();
        let mut i: usize = 0;
        while i < MODULE_COUNT
            invariant
                i <= MODULE_COUNT,
                modules@.len() == i,
                forall|k: int|
                    0 <= k < i ==> (#[trigger] modules@[k])@ == (ModuleEntryView {
                        status: ModuleStatus::Pending,
                        log_text: Seq::empty(),
                    }),
            decreases MODULE_COUNT - i,
        {
            modules.push(ModuleEntry { status: ModuleStatus::Pending, log_text: String::new() });
            assert(modules@[i as int]@.log_text =~= Seq::empty());
            i = i + 1;
        }
        let res = UpdateList { modules, current_module: None, nerd_mode: false };
        assert(res@.modules =~= fresh_list().modules);
        res
    }

    /// How far a module is.
    pub fn status(&self, module: Module) -> (res: ModuleStatus)
        requires
            self.wf(),
        ensures
            res == self@.status_of(module),
    {
        self.modules[module.index()].status
    }

    /// What a module printed.
    pub fn log_text(&self, module: Module) -> (res: &str)
        requires
            self.wf(),
        ensures
            res@ == self@.modules[module_index(module)].log_text,
    {
        self.modules[module.index()].log_text.as_str()
    }

    /// Whether the output of each module is shown.
    pub fn nerd_mode(&self) -> (res: bool)
        ensures
            res == self@.nerd_mode,
    {
        self.nerd_mode
    }

    fn set_status(&mut self, module: Module, status: ModuleStatus)
        requires
            old(self)@.modules.len() == MODULE_COUNT,
        ensures
            final(self)@ == old(self)@.with_status(module, status),
    {
        let i: usize = module.index();
        let ghost before = self@;
        let text: String = self.modules[i].log_text.as_str().to_owned();
        self.modules.set(i, ModuleEntry { status, log_text: text });
        proof {
            assert(self@.modules =~= before.with_status(module, status).modules);
        }
    }

    fn add_output(&mut self, module: Module, line: &str)
        requires
            old(self)@.modules.len() == MODULE_COUNT,
        ensures
            final(self)@ == old(self)@.with_output(module, line@),
    {
        let i: usize = module.index();
        let ghost before = self@;
        let text: String = append_line(self.modules[i].log_text.as_str(), line);
        let status = self.modules[i].status;
        self.modules.set(i, ModuleEntry { status, log_text: text });
        proof {
            assert(self@.modules =~= before.with_output(module, line@).modules);
        }
    }

    fn process_line(&mut self, line: &str)
        requires
            old(self).wf(),
        ensures
            final(self)@ == old(self)@.with_processed(line@),
    {
        if let Some(module) = detect_module_start(line) {
            if let Some(previous) = self.current_module {
                if self.modules[previous.index()].status == ModuleStatus::Running {
                    self.set_status(previous, ModuleStatus::Complete);
                }
            }
            self.current_module = Some(module);
            self.set_status(module, ModuleStatus::Running);
        }
        if let Some(module) = self.current_module {
            self.add_output(module, line);
        }
        if contains_str(line, "level=ERROR") || contains_str(line, "module_fail") {
            if let Some(module) = self.current_module {
                self.set_status(module, ModuleStatus::Failed);
            }
        }
    }

    /// Lets something happen to the list.
    pub fn update(&mut self, input: &UpdateListInput)
        requires
            old(self).wf(),
        ensures
            final(self)@ == old(self)@.step(input@),
            final(self).wf(),
    {
        proof {
            law_list_stays_well_formed(self@, input@);
        }
        match input {
            UpdateListInput::Reset => {
                *self = UpdateList::new();
            },
            UpdateListInput::ProcessLine(line) => {
                self.process_line(line.as_str());
            },
            UpdateListInput::SetNerdMode(on) => {
                self.nerd_mode = *on;
            },
            UpdateListInput::MarkAllComplete => {
                let ghost before = self@;
                let list = Module::all();
                let mut i: usize = 0;
                while i < list.len()
                    invariant
                        i <= list@.len(),
                        list@ == seq![
                            Module::System,
                            Module::Flatpak,
                            Module::Brew,
                            Module::Distrobox,
                        ],
                        before.modules.len() == MODULE_COUNT,
                        self@.modules.len() == MODULE_COUNT,
                        self@.nerd_mode == before.nerd_mode,
                        forall|k: int|
                            0 <= k < i ==> #[trigger] self@.modules[k] == before.step(
                                UpdateListInputView::MarkAllComplete,
                            ).modules[k],
                        forall|k: int|
                            i <= k < MODULE_COUNT ==> #[trigger] self@.modules[k]
                                == before.modules[k],
                    decreases list@.len() - i,
                {
                    let module = list[i];
                    assert(module_index(module) == i);
                    let status = self.modules[module.index()].status;
                    assert(self@.modules[i as int] == before.modules[i as int]);
                    if status == ModuleStatus::Running || status == ModuleStatus::Pending {
                        self.set_status(module, ModuleStatus::Complete);
                    }
                    i = i + 1;
                }
                self.current_module = None;
                assert(self@.modules =~= before.step(UpdateListInputView::MarkAllComplete).modules);
            },
            UpdateListInput::MarkCurrentFailed => {
                if let Some(module) = self.current_module {
                    if self.modules[module.index()].status == ModuleStatus::Running {
                        self.set_status(module, ModuleStatus::Failed);
                    }
                }
            },
        }
    }
}

/// The log with a line added below.
pub fn append_line(log: &str, line: &str) -> (res: String)
    ensures
        res@ == with_line(log@, line@),
{
    if log.unicode_len() == 0 {
        line.to_owned()
    } else {
        let mut text: String = log.to_owned();
        text.append("\n");
        text.append(line);
        proof {
            reveal_strlit("\n");
            assert(log@ + "\n"@ =~= log@.push('\n'));
        }
        text
    }
}

/// Whatever happens, only the current module can be running.
pub proof fn law_list_stays_well_formed(list: UpdateListView, input: UpdateListInputView)
    requires
        list.wf(),
    ensures
        list.step(input).wf(),
{
}

/// When an update succeeds, no module is left pending or running, and those that
/// failed stay failed.
pub proof fn law_completion_settles_modules(list: UpdateListView, module: Module)
    requires
        list.wf(),
    ensures
        ({
            let after = list.step(UpdateListInputView::MarkAllComplete);
            &&& after.current_module is None
            &&& after.status_of(module) == ModuleStatus::Failed <==> list.status_of(module)
                == ModuleStatus::Failed
            &&& after.status_of(module) == ModuleStatus::Failed || after.status_of(module)
                == ModuleStatus::Complete
        }),
{
}

/// A line changes what was printed by the current module only, and is added there in
/// full.
pub proof fn law_output_belongs_to_current(list: UpdateListView, line: Seq<char>, module: Module)
    requires
        list.wf(),
    ensures
        ({
            let after = list.with_processed(line);
            let i = module_index(module);
            after.modules[i].log_text == if after.current_module == Some(module) {
                with_line(list.modules[i].log_text, line)
            } else {
                list.modules[i].log_text
            }
        }),
{
}

/// A line that announces a module makes it the current one; the module is running
/// then, unless the same line reports a failure. The module that ran before is
/// complete, unless it is the same one.
pub proof fn law_announcement_starts_module(list: UpdateListView, line: Seq<char>, module: Module)
    requires
        list.wf(),
        announced_module(line) == Some(module),
    ensures
        list.with_processed(line).current_module == Some(module),
        list.with_processed(line).status_of(module) == if reports_failure(line) {
            ModuleStatus::Failed
        } else {
            ModuleStatus::Running
        },
        forall|other: Module|
            other != module && #[trigger] list.status_of(other) == ModuleStatus::Running
                ==> list.with_processed(line).status_of(other) == ModuleStatus::Complete,
{
}

/// A line announces the first of the modules, in their order, whose name it gives; it
/// announces none exactly where it gives no name of a module.
pub proof fn law_announcements(line: Seq<char>)
    ensures
        contains_text(line, "module_name=System"@) ==> announced_module(line) == Some(
            Module::System,
        ),
        announced_module(line) == Some(Module::System) ==> contains_text(
            line,
            "module_name=System"@,
        ),
        announced_module(line) == Some(Module::Flatpak) <==> contains_text(
            line,
            "module_name=Flatpak"@,
        ) && !contains_text(line, "module_name=System"@),
        announced_module(line) == Some(Module::Brew) <==> contains_text(line, "module_name=Brew"@)
            && !contains_text(line, "module_name=System"@) && !contains_text(
            line,
            "module_name=Flatpak"@,
        ),
        announced_module(line) is None <==> !contains_text(line, "module_name=System"@)
            && !contains_text(line, "module_name=Flatpak"@) && !contains_text(
            line,
            "module_name=Brew"@,
        ) && !contains_text(line, "module_name=Distrobox"@),
{
}

/// The modules run in the order system, apps, Homebrew, Distrobox, and have an entry each.
pub proof fn law_module_order(a: Module, b: Module)
    ensures
        module_index(Module::System) == 0,
        module_index(Module::Flatpak) == 1,
        module_index(Module::Brew) == 2,
        module_index(Module::Distrobox) == 3,
        module_index(a) == module_index(b) <==> a == b,
        fresh_list().modules.len() == 4,
{
}

/// The status of a module after a line of output. A line that gives no name of a module
/// belongs to the current one: it fails where the line holds a word for failure, and goes
/// on as it was otherwise. All other modules stay as they are.
pub proof fn law_line_without_announcement(list: UpdateListView, line: Seq<char>, module: Module)
    requires
        list.wf(),
        announced_module(line) is None,
    ensures
        ({
            let after = list.with_processed(line);
            let failure = contains_text(line, "level=ERROR"@) || contains_text(
                line,
                "module_fail"@,
            );
            &&& after.current_module == list.current_module
            &&& after.nerd_mode == list.nerd_mode
            &&& after.status_of(module) == if list.current_module == Some(module) && failure {
                ModuleStatus::Failed
            } else {
                list.status_of(module)
            }
        }),
{
}

/// The status of every module after a line that announces one: the announced one runs, or
/// has failed where the line holds a word for failure too; one that was running is
/// complete; all others stay as they are.
pub proof fn law_line_with_announcement(
    list: UpdateListView,
    line: Seq<char>,
    next: Module,
    module: Module,
)
    requires
        list.wf(),
        announced_module(line) == Some(next),
    ensures
        ({
            let after = list.with_processed(line);
            let failure = contains_text(line, "level=ERROR"@) || contains_text(
                line,
                "module_fail"@,
            );
            &&& after.current_module == Some(next)
            &&& after.nerd_mode == list.nerd_mode
            &&& after.status_of(next) == if failure {
                ModuleStatus::Failed
            } else {
                ModuleStatus::Running
            }
            &&& module != next ==> after.status_of(module) == if list.status_of(module)
                == ModuleStatus::Running {
                ModuleStatus::Complete
            } else {
                list.status_of(module)
            }
        }),
{
}

/// A new update starts with all modules pending, nothing printed, no current module and
/// the output of the modules hidden.
pub proof fn law_fresh_start(list: UpdateListView, module: Module)
    ensures
        ({
            let after = list.step(UpdateListInputView::Reset);
            &&& after.status_of(module) == ModuleStatus::Pending
            &&& after.modules[module_index(module)].log_text.len() == 0
            &&& after.current_module is None
            &&& !after.nerd_mode
        }),
{
}

/// When an update fails, the current module has failed where it was still running, and
/// nothing else changes. When it succeeds, nothing that was printed is lost.
pub proof fn law_end_of_update(list: UpdateListView, module: Module)
    requires
        list.wf(),
    ensures
        ({
            let after = list.step(UpdateListInputView::MarkCurrentFailed);
            let i = module_index(module);
            &&& after.status_of(module) == if list.status_of(module) == ModuleStatus::Running {
                ModuleStatus::Failed
            } else {
                list.status_of(module)
            }
            &&& after.modules[i].log_text == list.modules[i].log_text
            &&& after.current_module == list.current_module
            &&& after.nerd_mode == list.nerd_mode
        }),
        ({
            let after = list.step(UpdateListInputView::MarkAllComplete);
            let i = module_index(module);
            &&& after.modules[i].log_text == list.modules[i].log_text
            &&& after.nerd_mode == list.nerd_mode
        }),
{
}

/// Showing or hiding the output of the modules changes nothing else.
pub proof fn law_output_shown(list: UpdateListView, on: bool)
    ensures
        list.step(UpdateListInputView::SetNerdMode(on)).nerd_mode == on,
        list.step(UpdateListInputView::SetNerdMode(on)).modules == list.modules,
        list.step(UpdateListInputView::SetNerdMode(on)).current_module == list.current_module,
{
}

/// A line stands below what was printed before, and alone where nothing was.
pub proof fn law_line_below(log: Seq<char>, line: Seq<char>)
    ensures
        log.len() == 0 ==> with_line(log, line) == line,
        log.len() > 0 ==> with_line(log, line) == log + seq!['\n'] + line,
{
    assert(log.push('\n') + line =~= log + seq!['\n'] + line);
}

/// The words for the modules and for how far they are.
pub proof fn law_module_words(module: Module)
    ensures
        module_name(Module::System) == "System"@ && module_key(Module::System) == "system"@,
        module_name(Module::Flatpak) == "Flatpak"@ && module_key(Module::Flatpak) == "flatpak"@,
        module_name(Module::Brew) == "Brew"@ && module_key(Module::Brew) == "brew"@,
        module_name(Module::Distrobox) == "Distrobox"@ && module_key(Module::Distrobox)
            == "distrobox"@,
        module_description(Module::System) == "OS image · bootc"@,
        module_description(Module::Flatpak) == "Applications"@,
        module_description(Module::Brew) == "Homebrew packages"@,
        module_description(Module::Distrobox) == "Container environments"@,
        status_page(ModuleStatus::Pending) == "pending"@,
        status_page(ModuleStatus::Running) == "running"@,
        status_page(ModuleStatus::Complete) == "complete"@,
        status_page(ModuleStatus::Failed) == "failed"@,
        status_subtitle(ModuleStatus::Pending, module) == module_description(module),
        status_subtitle(ModuleStatus::Running, module) == "Updating…"@,
        status_subtitle(ModuleStatus::Complete, module) == "Complete"@,
        status_subtitle(ModuleStatus::Failed, module) == "Failed"@,
{
}

} // verus!
