//! The walk through module folders (`node_modules` and the like) that finds
//! a bare specifier: for each module folder name in turn, from the folder of
//! the request up to the root. The walk asks its caller about the file system
//! and is told the answers: each answer gives the next question, until a load
//! succeeds (the caller then stops) or the walk runs out of folders.
use vstd::prelude::*;

use crate::path::{
    chars_eq, lemma_parent_is_shorter, normalize_with, normalized_join, parent_of, parent_path, path_segments, segments_of,
};
use crate::request::{package_name_of, package_subpath_of, parse_package_specifier};
use crate::text::{chars_of, str_eq};

verus! {

/// What the walk waits to be told.
pub enum Waiting {
    /// The walk has not begun.
    Begin,
    /// Whether the current folder is a directory.
    Folder,
    /// Where the module folder inside the current folder is, if there is one.
    ModuleFolder,
    /// Whether the package folder inside this module folder is a directory.
    PackageFolder(String),
    /// Whether the scope folder of the package inside this module folder is a
    /// directory.
    ScopeFolder(String),
    /// That the package's exports, in the package folder inside this module
    /// folder, gave nothing.
    Exports(String),
    /// That loading the specifier as a file or directory gave nothing.
    FileOrDirectory,
    /// Nothing: the walk is over.
    Finished,
}

/// [`Waiting`] with its paths as character sequences.
pub enum WaitingText {
    Begin,
    Folder,
    ModuleFolder,
    PackageFolder(Seq<char>),
    ScopeFolder(Seq<char>),
    Exports(Seq<char>),
    FileOrDirectory,
    Finished,
}

impl View for Waiting {
    type V = WaitingText;

    open spec fn view(&self) -> WaitingText {
        match self {
            Waiting::Begin => WaitingText::Begin,
            Waiting::Folder => WaitingText::Folder,
            Waiting::ModuleFolder => WaitingText::ModuleFolder,
            Waiting::PackageFolder(m) => WaitingText::PackageFolder(m@),
            Waiting::ScopeFolder(m) => WaitingText::ScopeFolder(m@),
            Waiting::Exports(m) => WaitingText::Exports(m@),
            Waiting::FileOrDirectory => WaitingText::FileOrDirectory,
            Waiting::Finished => WaitingText::Finished,
        }
    }
}

/// What the caller tells the walk.
pub enum WalkEvent {
    /// Begin the walk.
    Begin,
    /// The path asked about is a directory, or not.
    IsDirectory(bool),
    /// The module folder asked for, if it exists.
    ModuleFolder(Option<String>),
    /// The load asked for gave nothing.
    NothingFound,
}

/// [`WalkEvent`] with its path as a character sequence.
pub enum WalkEventText {
    Begin,
    IsDirectory(bool),
    ModuleFolder(Option<Seq<char>>),
    NothingFound,
}

impl View for WalkEvent {
    type V = WalkEventText;

    open spec fn view(&self) -> WalkEventText {
        match self {
            WalkEvent::Begin => WalkEventText::Begin,
            WalkEvent::IsDirectory(b) => WalkEventText::IsDirectory(*b),
            WalkEvent::ModuleFolder(m) => WalkEventText::ModuleFolder(
                match m {
                    Some(s) => Some(s@),
                    None => None,
                },
            ),
            WalkEvent::NothingFound => WalkEventText::NothingFound,
        }
    }
}

/// What the walk asks of the caller next.
#[derive(Debug, PartialEq, Eq)]
pub enum WalkAction {
    /// Say whether this path is a directory.
    IsDirectory(String),
    /// Say where the module folder `module_name` inside `folder` is, if it
    /// exists.
    FindModuleFolder { folder: String, module_name: String },
    /// Load the package in this folder through its exports, with this subpath.
    LoadPackageExports { package_folder: String, subpath: String },
    /// Load this path as a file or a directory.
    LoadAsFileOrDirectory(String),
    /// Nothing more to try: the specifier is not found this way.
    NotFound,
}

/// [`WalkAction`] with its paths as character sequences.
pub enum WalkActionText {
    IsDirectory(Seq<char>),
    FindModuleFolder(Seq<char>, Seq<char>),
    LoadPackageExports(Seq<char>, Seq<char>),
    LoadAsFileOrDirectory(Seq<char>),
    NotFound,
}

impl View for WalkAction {
    type V = WalkActionText;

    open spec fn view(&self) -> WalkActionText {
        match self {
            WalkAction::IsDirectory(p) => WalkActionText::IsDirectory(p@),
            WalkAction::FindModuleFolder { folder, module_name } => WalkActionText::FindModuleFolder(
                folder@,
                module_name@,
            ),
            WalkAction::LoadPackageExports { package_folder, subpath } => WalkActionText::LoadPackageExports(
                package_folder@,
                subpath@,
            ),
            WalkAction::LoadAsFileOrDirectory(p) => WalkActionText::LoadAsFileOrDirectory(p@),
            WalkAction::NotFound => WalkActionText::NotFound,
        }
    }
}

/// The state of a walk: the specifier, the module folder names, the folder
/// the walk started from, the index of the current name, the current folder
/// and what the walk waits to be told.
pub struct WalkText {
    pub specifier: Seq<char>,
    pub modules: Seq<Seq<char>>,
    pub start: Seq<char>,
    pub module: int,
    pub folder: Seq<char>,
    pub waiting: WaitingText,
}

/// The walk for one bare specifier.
pub struct NodeModulesWalk {
    specifier: String,
    package_name: String,
    subpath: String,
    modules: Vec<String>,
    start: String,
    module: usize,
    folder: String,
    waiting: Waiting,
}

impl View for NodeModulesWalk {
    type V = WalkText;

    closed spec fn view(&self) -> WalkText {
        WalkText {
            specifier: self.specifier@,
            modules: self.modules@.map_values(|s: String| s@),
            start: self.start@,
            module: self.module as int,
            folder: self.folder@,
            waiting: self.waiting@,
        }
    }
}

/// `w` waiting for `x`.
pub open spec fn waiting_for(w: WalkText, x: WaitingText) -> WalkText {
    WalkText { specifier: w.specifier, modules: w.modules, start: w.start, module: w.module, folder: w.folder, waiting: x }
}

/// A walk in order: before it begins at the first name, and while it goes on
/// at one of the names.
pub open spec fn walk_in_order(w: WalkText) -> bool {
    &&& w.waiting is Begin ==> w.module == 0
    &&& !(w.waiting is Begin) && !(w.waiting is Finished) ==> 0 <= w.module < w.modules.len()
    &&& w.waiting is PackageFolder ==> package_name_of(w.specifier).len() > 0
}

/// The last component of a path when it is a name (not the root, `.` or `..`).
pub open spec fn last_name(p: Seq<char>) -> Option<Seq<char>> {
    let s = path_segments(p);
    if s.len() > 0 && s.last() != seq!['.', '.'] {
        Some(s.last())
    } else {
        None
    }
}

/// A folder that is itself the module folder `module_name`: its last
/// component is that name, and the name is not `node_modules` (whose folder
/// is always looked up).
pub open spec fn folder_is_module(folder: Seq<char>, module_name: Seq<char>) -> bool {
    module_name != "node_modules"@ && last_name(folder) == Some(module_name)
}

/// Asks whether the current folder is a directory.
pub open spec fn visit(w: WalkText) -> (WalkText, WalkActionText) {
    (waiting_for(w, WaitingText::Folder), WalkActionText::IsDirectory(w.folder))
}

/// Moves on from the current folder: to its parent, else back to the start
/// with the next module folder name, else to the end of the walk.
pub open spec fn advance(w: WalkText) -> (WalkText, WalkActionText) {
    match parent_path(w.folder) {
        Some(p) => visit(
            WalkText { specifier: w.specifier, modules: w.modules, start: w.start, module: w.module, folder: p, waiting: w.waiting },
        ),
        None => if w.module + 1 < w.modules.len() {
            visit(
                WalkText {
                    specifier: w.specifier,
                    modules: w.modules,
                    start: w.start,
                    module: w.module + 1,
                    folder: w.start,
                    waiting: w.waiting,
                },
            )
        } else {
            (waiting_for(w, WaitingText::Finished), WalkActionText::NotFound)
        },
    }
}

/// Loads the specifier as a file or directory inside the module folder `m`.
pub open spec fn load_in(w: WalkText, m: Seq<char>) -> (WalkText, WalkActionText) {
    (waiting_for(w, WaitingText::FileOrDirectory), WalkActionText::LoadAsFileOrDirectory(normalized_join(m, w.specifier)))
}

/// In the module folder `m`: a package name is looked for as a folder first;
/// without one, the specifier is loaded as a file or directory.
pub open spec fn enter_module_folder(w: WalkText, m: Seq<char>) -> (WalkText, WalkActionText) {
    let name = package_name_of(w.specifier);
    if name.len() > 0 {
        (waiting_for(w, WaitingText::PackageFolder(m)), WalkActionText::IsDirectory(normalized_join(m, name)))
    } else {
        load_in(w, m)
    }
}

/// The event that the walk waits for.
pub open spec fn expects(waiting: WaitingText, e: WalkEventText) -> bool {
    match waiting {
        WaitingText::Begin => e is Begin,
        WaitingText::Folder => e is IsDirectory,
        WaitingText::ModuleFolder => e is ModuleFolder,
        WaitingText::PackageFolder(_) => e is IsDirectory,
        WaitingText::ScopeFolder(_) => e is IsDirectory,
        WaitingText::Exports(_) => e is NothingFound,
        WaitingText::FileOrDirectory => e is NothingFound,
        WaitingText::Finished => true,
    }
}

/// The next state of the walk and its next question, once told `e`.
///
/// A folder that is not a directory is passed over. In a directory, the
/// module folder is the folder itself when its name is the module folder
/// name, else it is asked for, and the folder is passed over without one.
/// A package folder that is a directory is loaded through its exports first;
/// when it is not one, a specifier with a subpath passes the module folder
/// over, and so does a scoped package whose scope folder is not a directory.
/// Then the specifier is loaded as a file or directory in the module folder.
pub open spec fn walk_next(w: WalkText, e: WalkEventText) -> (WalkText, WalkActionText) {
    let name = package_name_of(w.specifier);
    let subpath = package_subpath_of(w.specifier);
    match w.waiting {
        WaitingText::Begin => if w.modules.len() == 0 {
            (waiting_for(w, WaitingText::Finished), WalkActionText::NotFound)
        } else {
            visit(w)
        },
        WaitingText::Folder => match e {
            WalkEventText::IsDirectory(true) => if folder_is_module(w.folder, w.modules[w.module]) {
                enter_module_folder(w, w.folder)
            } else {
                (
                    waiting_for(w, WaitingText::ModuleFolder),
                    WalkActionText::FindModuleFolder(w.folder, w.modules[w.module]),
                )
            },
            _ => advance(w),
        },
        WaitingText::ModuleFolder => match e {
            WalkEventText::ModuleFolder(Some(m)) => enter_module_folder(w, m),
            _ => advance(w),
        },
        WaitingText::PackageFolder(m) => match e {
            WalkEventText::IsDirectory(true) => (
                waiting_for(w, WaitingText::Exports(m)),
                WalkActionText::LoadPackageExports(normalized_join(m, name), subpath),
            ),
            _ => if subpath.len() > 0 {
                advance(w)
            } else if name[0] == '@' {
                match parent_path(normalized_join(m, name)) {
                    Some(scope) => (waiting_for(w, WaitingText::ScopeFolder(m)), WalkActionText::IsDirectory(scope)),
                    None => load_in(w, m),
                }
            } else {
                load_in(w, m)
            },
        },
        WaitingText::ScopeFolder(m) => match e {
            WalkEventText::IsDirectory(true) => load_in(w, m),
            _ => advance(w),
        },
        WaitingText::Exports(m) => load_in(w, m),
        WaitingText::FileOrDirectory => advance(w),
        WaitingText::Finished => (w, WalkActionText::NotFound),
    }
}

impl NodeModulesWalk {
    /// The walk is in order and knows the package name and subpath of its
    /// specifier.
    pub closed spec fn wf(&self) -> bool {
        &&& walk_in_order(self@)
        &&& self.package_name@ == package_name_of(self.specifier@)
        &&& self.subpath@ == package_subpath_of(self.specifier@)
    }

    /// A walk for `specifier` from the folder `start` through the module
    /// folder names `modules`, not begun.
    pub fn new(start: &str, specifier: &str, modules: Vec<String>) -> (w: Self)
        ensures
            w.wf(),
            w@ == (WalkText {
                specifier: specifier@,
                modules: modules@.map_values(|s: String| s@),
                start: start@,
                module: 0,
                folder: start@,
                waiting: WaitingText::Begin,
            }),
    {
        let (package_name, subpath) = parse_package_specifier(specifier);
        NodeModulesWalk {
            specifier: specifier.to_owned(),
            package_name,
            subpath,
            modules,
            start: start.to_owned(),
            module: 0,
            folder: start.to_owned(),
            waiting: Waiting::Begin,
        }
    }

    /// Whether `event` is what the walk waits for (see [`expects`]).
    pub fn expects(&self, event: &WalkEvent) -> (r: bool)
        ensures
            r == expects(self@.waiting, event@),
    {
        match (&self.waiting, event) {
            (Waiting::Begin, WalkEvent::Begin) => true,
            (Waiting::Folder, WalkEvent::IsDirectory(_)) => true,
            (Waiting::ModuleFolder, WalkEvent::ModuleFolder(_)) => true,
            (Waiting::PackageFolder(_), WalkEvent::IsDirectory(_)) => true,
            (Waiting::ScopeFolder(_), WalkEvent::IsDirectory(_)) => true,
            (Waiting::Exports(_), WalkEvent::NothingFound) => true,
            (Waiting::FileOrDirectory, WalkEvent::NothingFound) => true,
            (Waiting::Finished, _) => true,
            _ => false,
        }
    }
}

/// How far a question is along the questions about one folder.
pub open spec fn question_rank(x: WaitingText) -> int {
    match x {
        WaitingText::Begin => 0,
        WaitingText::Folder => 1,
        WaitingText::ModuleFolder => 2,
        WaitingText::PackageFolder(_) => 3,
        WaitingText::ScopeFolder(_) => 4,
        WaitingText::Exports(_) => 4,
        WaitingText::FileOrDirectory => 5,
        WaitingText::Finished => 6,
    }
}

/// `b` lies further along the walk than `a`: at a later module folder name;
/// or at the same name in a folder higher up (a shorter path); or in the same
/// folder, at a later question.
pub open spec fn further_along(a: WalkText, b: WalkText) -> bool {
    ||| b.module > a.module
    ||| b.module == a.module && b.folder.len() < a.folder.len()
    ||| b.module == a.module && b.folder.len() == a.folder.len() && question_rank(b.waiting) > question_rank(
        a.waiting,
    )
}

/// The walk comes to an end: each answer to a walk that is not over keeps
/// it in order and moves it further along, to a later name, a higher folder
/// or a later question, and none of these can go on for ever (the names are
/// finitely many, a folder path has a length, and a folder has at most six
/// questions).
pub proof fn lemma_walk_moves_forward(w: WalkText, e: WalkEventText)
    requires
        walk_in_order(w),
        expects(w.waiting, e),
        !(w.waiting is Finished),
    ensures
        walk_in_order(walk_next(w, e).0),
        further_along(w, walk_next(w, e).0),
        walk_next(w, e).0.module < w.modules.len() || walk_next(w, e).0.waiting is Finished,
{
    lemma_parent_is_shorter(w.folder);
}

/// Whether `folder` is itself the module folder `module_name` (see
/// [`folder_is_module`]).
fn is_module_folder(folder: &str, module_name: &str) -> (r: bool)
    ensures
        r == folder_is_module(folder@, module_name@),
{
    if str_eq(module_name, "node_modules") {
        return false;
    }
    let segs = segments_of(&chars_of(folder));
    let n = segs.len();
    if n == 0 {
        return false;
    }
    let last = &segs[n - 1];
    proof {
        assert(path_segments(folder@).last() == last@);
    }
    if last.len() == 2 && last[0] == '.' && last[1] == '.' {
        proof {
            assert(last@ =~= seq!['.', '.']);
        }
        return false;
    }
    proof {
        if last@ == seq!['.', '.'] {
            assert(last@[0] == '.' && last@[1] == '.');
        }
    }
    chars_eq(last, &chars_of(module_name))
}

impl NodeModulesWalk {
    /// The package name and subpath are those of the specifier.
    closed spec fn parts_known(&self) -> bool {
        &&& self.package_name@ == package_name_of(self.specifier@)
        &&& self.subpath@ == package_subpath_of(self.specifier@)
    }

    /// Asks about the current folder (see [`visit`]).
    fn visit(&mut self) -> (a: WalkAction)
        requires
            old(self).parts_known(),
            0 <= old(self)@.module < old(self)@.modules.len(),
        ensures
            final(self).wf(),
            (final(self)@, a@) == visit(old(self)@),
    {
        self.waiting = Waiting::Folder;
        WalkAction::IsDirectory(self.folder.clone())
    }

    /// Moves on from the current folder (see [`advance`]).
    fn advance(&mut self) -> (a: WalkAction)
        requires
            old(self).parts_known(),
            0 <= old(self)@.module < old(self)@.modules.len(),
        ensures
            final(self).wf(),
            (final(self)@, a@) == advance(old(self)@),
    {
        match parent_of(self.folder.as_str()) {
            Some(p) => {
                self.folder = p;
                self.visit()
            },
            None => {
                if self.module < self.modules.len() - 1 {
                    self.module = self.module + 1;
                    self.folder = self.start.clone();
                    self.visit()
                } else {
                    self.waiting = Waiting::Finished;
                    WalkAction::NotFound
                }
            },
        }
    }

    /// Loads the specifier in the module folder `m` (see [`load_in`]).
    fn load_in(&mut self, m: &str) -> (a: WalkAction)
        requires
            old(self).parts_known(),
            0 <= old(self)@.module < old(self)@.modules.len(),
        ensures
            final(self).wf(),
            (final(self)@, a@) == load_in(old(self)@, m@),
    {
        self.waiting = Waiting::FileOrDirectory;
        WalkAction::LoadAsFileOrDirectory(normalize_with(m, self.specifier.as_str()))
    }

    /// Goes into the module folder `m` (see [`enter_module_folder`]).
    fn enter_module_folder(&mut self, m: String) -> (a: WalkAction)
        requires
            old(self).parts_known(),
            0 <= old(self)@.module < old(self)@.modules.len(),
        ensures
            final(self).wf(),
            (final(self)@, a@) == enter_module_folder(old(self)@, m@),
    {
        if !self.package_name.as_str().is_empty() {
            let p = normalize_with(m.as_str(), self.package_name.as_str());
            self.waiting = Waiting::PackageFolder(m);
            WalkAction::IsDirectory(p)
        } else {
            self.load_in(m.as_str())
        }
    }

    /// Tells the walk `event` and returns its next question (see
    /// [`walk_next`]).
    pub fn next(&mut self, event: WalkEvent) -> (a: WalkAction)
        requires
            old(self).wf(),
            expects(old(self)@.waiting, event@),
        ensures
            final(self).wf(),
            (final(self)@, a@) == walk_next(old(self)@, event@),
    {
        let mut waiting = Waiting::Begin;
        std::mem::swap(&mut waiting, &mut self.waiting);
        match waiting {
            Waiting::Begin => {
                if self.modules.len() == 0 {
                    self.waiting = Waiting::Finished;
                    WalkAction::NotFound
                } else {
                    self.visit()
                }
            },
            Waiting::Folder => match event {
                WalkEvent::IsDirectory(true) => {
                    let folder = self.folder.clone();
                    let module_name = self.modules[self.module].clone();
                    proof {
                        assert(self@.modules[self@.module] == module_name@);
                    }
                    if is_module_folder(folder.as_str(), module_name.as_str()) {
                        self.enter_module_folder(folder)
                    } else {
                        self.waiting = Waiting::ModuleFolder;
                        WalkAction::FindModuleFolder { folder, module_name }
                    }
                },
                _ => self.advance(),
            },
            Waiting::ModuleFolder => match event {
                WalkEvent::ModuleFolder(Some(m)) => self.enter_module_folder(m),
                _ => self.advance(),
            },
            Waiting::PackageFolder(m) => match event {
                WalkEvent::IsDirectory(true) => {
                    let package_folder = normalize_with(m.as_str(), self.package_name.as_str());
                    let subpath = self.subpath.clone();
                    self.waiting = Waiting::Exports(m);
                    WalkAction::LoadPackageExports { package_folder, subpath }
                },
                _ => {
                    if !self.subpath.as_str().is_empty() {
                        self.advance()
                    } else {
                        let name = chars_of(self.package_name.as_str());
                        if name[0] == '@' {
                            let package_folder = normalize_with(m.as_str(), self.package_name.as_str());
                            match parent_of(package_folder.as_str()) {
                                Some(scope) => {
                                    self.waiting = Waiting::ScopeFolder(m);
                                    WalkAction::IsDirectory(scope)
                                },
                                None => self.load_in(m.as_str()),
                            }
                        } else {
                            self.load_in(m.as_str())
                        }
                    }
                },
            },
            Waiting::ScopeFolder(m) => match event {
                WalkEvent::IsDirectory(true) => self.load_in(m.as_str()),
                _ => self.advance(),
            },
            Waiting::Exports(m) => self.load_in(m.as_str()),
            Waiting::FileOrDirectory => self.advance(),
            Waiting::Finished => {
                self.waiting = Waiting::Finished;
                WalkAction::NotFound
            },
        }
    }
}

/// What the walk of a package lookup asks of the caller next.
#[derive(Debug, PartialEq, Eq)]
pub enum PackageWalkAction {
    /// Say where the module folder `module_name` inside `folder` is, if it
    /// exists.
    FindModuleFolder { folder: String, module_name: String },
    /// Say whether this path, the package folder, is a directory.
    IsDirectory(String),
    /// The package is in this folder: resolve the subpath (`.` and the
    /// specifier's subpath) in it, through its exports, then its main fields,
    /// then as a relative request. The walk is over.
    ResolveInPackage { package_folder: String, subpath: String },
    /// No module folder holds the package: the specifier is not found.
    NotFound,
}

/// [`PackageWalkAction`] with its paths as character sequences.
pub enum PackageWalkActionText {
    FindModuleFolder(Seq<char>, Seq<char>),
    IsDirectory(Seq<char>),
    ResolveInPackage(Seq<char>, Seq<char>),
    NotFound,
}

impl View for PackageWalkAction {
    type V = PackageWalkActionText;

    open spec fn view(&self) -> PackageWalkActionText {
        match self {
            PackageWalkAction::FindModuleFolder { folder, module_name } => PackageWalkActionText::FindModuleFolder(
                folder@,
                module_name@,
            ),
            PackageWalkAction::IsDirectory(p) => PackageWalkActionText::IsDirectory(p@),
            PackageWalkAction::ResolveInPackage { package_folder, subpath } => PackageWalkActionText::ResolveInPackage(
                package_folder@,
                subpath@,
            ),
            PackageWalkAction::NotFound => PackageWalkActionText::NotFound,
        }
    }
}

/// In the module folder `m`: asks whether the package folder is a directory.
pub open spec fn package_in(w: WalkText, m: Seq<char>) -> (WalkText, PackageWalkActionText) {
    (
        waiting_for(w, WaitingText::PackageFolder(m)),
        PackageWalkActionText::IsDirectory(normalized_join(m, package_name_of(w.specifier))),
    )
}

/// At the current folder: its module folder is the folder itself when its
/// name is the module folder name, else it is asked for.
pub open spec fn package_visit(w: WalkText) -> (WalkText, PackageWalkActionText) {
    if folder_is_module(w.folder, w.modules[w.module]) {
        package_in(w, w.folder)
    } else {
        (
            waiting_for(w, WaitingText::ModuleFolder),
            PackageWalkActionText::FindModuleFolder(w.folder, w.modules[w.module]),
        )
    }
}

/// Moves on from the current folder: to its parent, else back to the start
/// with the next module folder name, else to the end of the walk.
pub open spec fn package_advance(w: WalkText) -> (WalkText, PackageWalkActionText) {
    match parent_path(w.folder) {
        Some(p) => package_visit(
            WalkText { specifier: w.specifier, modules: w.modules, start: w.start, module: w.module, folder: p, waiting: w.waiting },
        ),
        None => if w.module + 1 < w.modules.len() {
            package_visit(
                WalkText {
                    specifier: w.specifier,
                    modules: w.modules,
                    start: w.start,
                    module: w.module + 1,
                    folder: w.start,
                    waiting: w.waiting,
                },
            )
        } else {
            (waiting_for(w, WaitingText::Finished), PackageWalkActionText::NotFound)
        },
    }
}

/// The event that a package lookup waits for; once over, it waits for none.
pub open spec fn package_expects(waiting: WaitingText, e: WalkEventText) -> bool {
    match waiting {
        WaitingText::Begin => e is Begin,
        WaitingText::ModuleFolder => e is ModuleFolder,
        WaitingText::PackageFolder(_) => e is IsDirectory,
        _ => false,
    }
}

/// The next state of a package lookup and its next question, once told `e`.
///
/// Each folder from the start up to the root is tried for each module folder
/// name: a folder without the module folder, or whose module folder holds no
/// package folder, is passed over; the first package folder found ends the
/// walk, and the package's subpath is resolved in it.
pub open spec fn package_walk_next(w: WalkText, e: WalkEventText) -> (WalkText, PackageWalkActionText) {
    match w.waiting {
        WaitingText::Begin => if w.modules.len() == 0 {
            (waiting_for(w, WaitingText::Finished), PackageWalkActionText::NotFound)
        } else {
            package_visit(w)
        },
        WaitingText::ModuleFolder => match e {
            WalkEventText::ModuleFolder(Some(m)) => package_in(w, m),
            _ => package_advance(w),
        },
        WaitingText::PackageFolder(m) => match e {
            WalkEventText::IsDirectory(true) => (
                waiting_for(w, WaitingText::Finished),
                PackageWalkActionText::ResolveInPackage(
                    normalized_join(m, package_name_of(w.specifier)),
                    seq!['.'] + package_subpath_of(w.specifier),
                ),
            ),
            _ => package_advance(w),
        },
        _ => (w, PackageWalkActionText::NotFound),
    }
}

/// A package lookup in order: before it begins at the first name, while it
/// goes on at one of the names, waiting only for a module folder or a
/// package folder.
pub open spec fn package_walk_in_order(w: WalkText) -> bool {
    &&& w.waiting is Begin ==> w.module == 0
    &&& !(w.waiting is Begin) && !(w.waiting is Finished) ==> 0 <= w.module < w.modules.len()
    &&& w.waiting is Begin || w.waiting is ModuleFolder || w.waiting is PackageFolder || w.waiting is Finished
}

/// A package lookup comes to an end: each answer moves it further along
/// (see [`further_along`]), keeping it in order.
pub proof fn lemma_package_walk_moves_forward(w: WalkText, e: WalkEventText)
    requires
        package_walk_in_order(w),
        package_expects(w.waiting, e),
    ensures
        package_walk_in_order(package_walk_next(w, e).0),
        further_along(w, package_walk_next(w, e).0),
        package_walk_next(w, e).0.module < w.modules.len() || package_walk_next(w, e).0.waiting is Finished,
{
    lemma_parent_is_shorter(w.folder);
}

/// The lookup of a package by name, through the module folders from a start
/// folder up to the root.
pub struct PackageWalk {
    walk: NodeModulesWalk,
}

impl View for PackageWalk {
    type V = WalkText;

    closed spec fn view(&self) -> WalkText {
        self.walk@
    }
}

impl PackageWalk {
    /// The lookup is in order and knows the package name and subpath of its
    /// specifier.
    pub closed spec fn wf(&self) -> bool {
        &&& package_walk_in_order(self@)
        &&& self.walk.parts_known()
    }

    /// A lookup of the package of `specifier` from the folder `start` through
    /// the module folder names `modules`, not begun.
    pub fn new(start: &str, specifier: &str, modules: Vec<String>) -> (w: Self)
        ensures
            w.wf(),
            w@ == (WalkText {
                specifier: specifier@,
                modules: modules@.map_values(|s: String| s@),
                start: start@,
                module: 0,
                folder: start@,
                waiting: WaitingText::Begin,
            }),
    {
        PackageWalk { walk: NodeModulesWalk::new(start, specifier, modules) }
    }

    /// Whether `event` is what the lookup waits for (see
    /// [`package_expects`]).
    pub fn expects(&self, event: &WalkEvent) -> (r: bool)
        ensures
            r == package_expects(self@.waiting, event@),
    {
        match (&self.walk.waiting, event) {
            (Waiting::Begin, WalkEvent::Begin) => true,
            (Waiting::ModuleFolder, WalkEvent::ModuleFolder(_)) => true,
            (Waiting::PackageFolder(_), WalkEvent::IsDirectory(_)) => true,
            _ => false,
        }
    }

    /// Goes into the module folder `m` (see [`package_in`]).
    fn enter(&mut self, m: String) -> (a: PackageWalkAction)
        requires
            old(self).walk.parts_known(),
            0 <= old(self)@.module < old(self)@.modules.len(),
        ensures
            final(self).wf(),
            (final(self)@, a@) == package_in(old(self)@, m@),
    {
        let p = normalize_with(m.as_str(), self.walk.package_name.as_str());
        self.walk.waiting = Waiting::PackageFolder(m);
        PackageWalkAction::IsDirectory(p)
    }

    /// Looks for the module folder of the current folder (see [`package_visit`]).
    fn visit(&mut self) -> (a: PackageWalkAction)
        requires
            old(self).walk.parts_known(),
            0 <= old(self)@.module < old(self)@.modules.len(),
        ensures
            final(self).wf(),
            (final(self)@, a@) == package_visit(old(self)@),
    {
        let folder = self.walk.folder.clone();
        let module_name = self.walk.modules[self.walk.module].clone();
        proof {
            assert(self@.modules[self@.module] == module_name@);
        }
        if is_module_folder(folder.as_str(), module_name.as_str()) {
            self.enter(folder)
        } else {
            self.walk.waiting = Waiting::ModuleFolder;
            PackageWalkAction::FindModuleFolder { folder, module_name }
        }
    }

    /// Moves on from the current folder (see [`package_advance`]).
    fn advance(&mut self) -> (a: PackageWalkAction)
        requires
            old(self).walk.parts_known(),
            0 <= old(self)@.module < old(self)@.modules.len(),
        ensures
            final(self).wf(),
            (final(self)@, a@) == package_advance(old(self)@),
    {
        match parent_of(self.walk.folder.as_str()) {
            Some(p) => {
                self.walk.folder = p;
                self.visit()
            },
            None => {
                if self.walk.module < self.walk.modules.len() - 1 {
                    self.walk.module = self.walk.module + 1;
                    self.walk.folder = self.walk.start.clone();
                    self.visit()
                } else {
                    self.walk.waiting = Waiting::Finished;
                    PackageWalkAction::NotFound
                }
            },
        }
    }

    /// Tells the lookup `event` and returns its next question (see
    /// [`package_walk_next`]).
    pub fn next(&mut self, event: WalkEvent) -> (a: PackageWalkAction)
        requires
            old(self).wf(),
            package_expects(old(self)@.waiting, event@),
        ensures
            final(self).wf(),
            (final(self)@, a@) == package_walk_next(old(self)@, event@),
    {
        let mut waiting = Waiting::Begin;
        std::mem::swap(&mut waiting, &mut self.walk.waiting);
        match waiting {
            Waiting::Begin => {
                if self.walk.modules.len() == 0 {
                    self.walk.waiting = Waiting::Finished;
                    PackageWalkAction::NotFound
                } else {
                    self.visit()
                }
            },
            Waiting::ModuleFolder => match event {
                WalkEvent::ModuleFolder(Some(m)) => self.enter(m),
                _ => self.advance(),
            },
            Waiting::PackageFolder(m) => match event {
                WalkEvent::IsDirectory(true) => {
                    let package_folder = normalize_with(m.as_str(), self.walk.package_name.as_str());
                    let mut subpath = ".".to_owned();
                    subpath.append(self.walk.subpath.as_str());
                    proof {
                        reveal_strlit(".");
                        assert(subpath@ =~= seq!['.'] + package_subpath_of(self@.specifier));
                    }
                    self.walk.waiting = Waiting::Finished;
                    PackageWalkAction::ResolveInPackage { package_folder, subpath }
                },
                _ => self.advance(),
            },
            _ => {
                self.walk.waiting = Waiting::Finished;
                PackageWalkAction::NotFound
            },
        }
    }
}

} // verus!
