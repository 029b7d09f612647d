//! The walk through the aliases of the resolver for one specifier: each
//! alias whose key applies is tried value by value; a value maps the
//! specifier to another one, which the caller resolves, or to nothing. The
//! walk asks its caller about the file system and for resolutions, and is
//! told the answers; a resolution that succeeds ends it (the caller stops).
use vstd::prelude::*;

use crate::error::{ErrorView, ResolveError};
use crate::path::{normalize_with, normalized_join};
use crate::resolver::{alias_key_for, alias_key_match, alias_plan, plan_alias, AliasPlan, AliasPlanText};
use crate::text::starts_with;

verus! {

/// What an alias maps its key to.
#[derive(Clone)]
pub enum AliasValue {
    /// Another specifier, or a path.
    Path(String),
    /// Nothing: the specifier is to be ignored.
    Ignore,
}

/// [`AliasValue`] with its path as a character sequence.
pub enum AliasValueText {
    Path(Seq<char>),
    Ignore,
}

impl View for AliasValue {
    type V = AliasValueText;

    open spec fn view(&self) -> AliasValueText {
        match self {
            AliasValue::Path(p) => AliasValueText::Path(p@),
            AliasValue::Ignore => AliasValueText::Ignore,
        }
    }
}

/// What the alias walk waits to be told.
pub enum AliasWaiting {
    /// The walk has not begun.
    Begin,
    /// Whether the path of the current value is a file; if it is not, this
    /// specifier is to be resolved.
    FileCheck(String),
    /// That resolving the current value's specifier found nothing.
    Resolution,
    /// Nothing: the walk is over.
    Finished,
}

/// [`AliasWaiting`] with its specifier as a character sequence.
pub enum AliasWaitingText {
    Begin,
    FileCheck(Seq<char>),
    Resolution,
    Finished,
}

impl View for AliasWaiting {
    type V = AliasWaitingText;

    open spec fn view(&self) -> AliasWaitingText {
        match self {
            AliasWaiting::Begin => AliasWaitingText::Begin,
            AliasWaiting::FileCheck(s) => AliasWaitingText::FileCheck(s@),
            AliasWaiting::Resolution => AliasWaitingText::Resolution,
            AliasWaiting::Finished => AliasWaitingText::Finished,
        }
    }
}

/// What the caller tells the alias walk.
pub enum AliasEvent {
    /// Begin the walk.
    Begin,
    /// The path asked about is a file, or not.
    IsFile(bool),
    /// The resolution asked for found nothing (it failed as not found).
    NothingFound,
}

/// What the alias walk asks of the caller next.
#[derive(Debug, PartialEq, Eq)]
pub enum AliasAction {
    /// Say whether this path is a file.
    IsFile(String),
    /// Resolve this specifier (not fully specified) from the same folder.
    Require(String),
    /// The resolution fails with this error.
    Fail(ResolveError),
    /// No alias gave a resolution.
    NoAlias,
}

/// [`AliasAction`] with its strings as character sequences.
pub enum AliasActionText {
    IsFile(Seq<char>),
    Require(Seq<char>),
    Fail(ErrorView),
    NoAlias,
}

impl View for AliasAction {
    type V = AliasActionText;

    open spec fn view(&self) -> AliasActionText {
        match self {
            AliasAction::IsFile(p) => AliasActionText::IsFile(p@),
            AliasAction::Require(s) => AliasActionText::Require(s@),
            AliasAction::Fail(e) => AliasActionText::Fail(e@),
            AliasAction::NoAlias => AliasActionText::NoAlias,
        }
    }
}

/// The state of an alias walk: the folder of the request, the specifier,
/// the aliases (raw keys and their values), the current alias and value,
/// whether a value of the current alias was resolved (so that the alias must
/// not be passed over if none succeeds), and what the walk waits to be told.
pub struct AliasText {
    pub directory: Seq<char>,
    pub specifier: Seq<char>,
    pub aliases: Seq<(Seq<char>, Seq<AliasValueText>)>,
    pub entry: int,
    pub value: int,
    pub should_stop: bool,
    pub waiting: AliasWaitingText,
}

/// The views of aliases.
pub open spec fn aliases_text(aliases: Seq<(String, Vec<AliasValue>)>) -> Seq<(Seq<char>, Seq<AliasValueText>)> {
    aliases.map_values(|e: (String, Vec<AliasValue>)| (e.0@, e.1@.map_values(|v: AliasValue| v@)))
}

/// The walk for one specifier over a list of aliases.
pub struct AliasWalk {
    directory: String,
    specifier: String,
    aliases: Vec<(String, Vec<AliasValue>)>,
    entry: usize,
    value: usize,
    should_stop: bool,
    waiting: AliasWaiting,
}

impl View for AliasWalk {
    type V = AliasText;

    closed spec fn view(&self) -> AliasText {
        AliasText {
            directory: self.directory@,
            specifier: self.specifier@,
            aliases: aliases_text(self.aliases@),
            entry: self.entry as int,
            value: self.value as int,
            should_stop: self.should_stop,
            waiting: self.waiting@,
        }
    }
}

/// `w` moved to the value `value` of the alias `entry`, where nothing has
/// been asked yet.
pub open spec fn alias_at(w: AliasText, entry: int, value: int, should_stop: bool) -> AliasText {
    AliasText {
        directory: w.directory,
        specifier: w.specifier,
        aliases: w.aliases,
        entry,
        value,
        should_stop,
        waiting: AliasWaitingText::Begin,
    }
}

/// `w` waiting for `x`, with `should_stop` as given.
pub open spec fn alias_waiting(w: AliasText, should_stop: bool, x: AliasWaitingText) -> AliasText {
    AliasText {
        directory: w.directory,
        specifier: w.specifier,
        aliases: w.aliases,
        entry: w.entry,
        value: w.value,
        should_stop,
        waiting: x,
    }
}

/// The number of values of the current alias not yet tried.
pub open spec fn values_left(w: AliasText) -> int {
    if 0 <= w.entry < w.aliases.len() {
        w.aliases[w.entry].1.len() - w.value
    } else {
        0
    }
}

/// From the current value on, the first question or outcome of the walk.
///
/// An alias whose key does not apply is passed over. Of one that applies,
/// the values are tried in order: `Ignore` fails the resolution as ignored
/// (the key resolved against the folder); a path that leaves the specifier
/// alone is passed over; one that maps it to another specifier has that
/// resolved, after checking, when the specifier continues past the key, that
/// the value's path is not a file. When all values of an alias are tried and
/// one was resolved, the resolution fails as a matched alias not found; else
/// the next alias is tried. After the last alias, no alias gave anything.
pub open spec fn alias_scan(w: AliasText) -> (AliasText, AliasActionText)
    decreases w.aliases.len() - w.entry, values_left(w),
{
    if w.entry < 0 || w.entry >= w.aliases.len() {
        (alias_waiting(w, w.should_stop, AliasWaitingText::Finished), AliasActionText::NoAlias)
    } else {
        let values = w.aliases[w.entry].1;
        match alias_key_for(w.specifier, w.aliases[w.entry].0) {
            None => alias_scan(alias_at(w, w.entry + 1, 0, false)),
            Some(key) => if w.value < 0 || w.value >= values.len() {
                if w.should_stop {
                    (
                        alias_waiting(w, w.should_stop, AliasWaitingText::Finished),
                        AliasActionText::Fail(ErrorView::MatchedAliasNotFound(w.specifier, key)),
                    )
                } else {
                    alias_scan(alias_at(w, w.entry + 1, 0, false))
                }
            } else {
                match values[w.value] {
                    AliasValueText::Ignore => (
                        alias_waiting(w, w.should_stop, AliasWaitingText::Finished),
                        AliasActionText::Fail(ErrorView::Ignored(normalized_join(w.directory, key))),
                    ),
                    AliasValueText::Path(v) => match alias_plan(w.specifier, key, v) {
                        AliasPlanText::Skip => alias_scan(alias_at(w, w.entry, w.value + 1, w.should_stop)),
                        AliasPlanText::Use(s) => (
                            alias_waiting(w, true, AliasWaitingText::Resolution),
                            AliasActionText::Require(s),
                        ),
                        AliasPlanText::UnlessFile(path, s) => (
                            alias_waiting(w, w.should_stop, AliasWaitingText::FileCheck(s)),
                            AliasActionText::IsFile(path),
                        ),
                    },
                }
            },
        }
    }
}

/// The event that the alias walk waits for; once over, it waits for none.
pub open spec fn alias_expects(waiting: AliasWaitingText, e: AliasEvent) -> bool {
    match waiting {
        AliasWaitingText::Begin => e is Begin,
        AliasWaitingText::FileCheck(_) => e is IsFile,
        AliasWaitingText::Resolution => e is NothingFound,
        AliasWaitingText::Finished => false,
    }
}

/// The next state of the alias walk and its next question, once told `e`:
/// a value whose path is a file gives nothing and the next value is tried;
/// otherwise its specifier is resolved, and when that finds nothing the next
/// value is tried.
pub open spec fn alias_next(w: AliasText, e: AliasEvent) -> (AliasText, AliasActionText) {
    match w.waiting {
        AliasWaitingText::Begin => alias_scan(w),
        AliasWaitingText::FileCheck(s) => match e {
            AliasEvent::IsFile(true) => alias_scan(alias_at(w, w.entry, w.value + 1, w.should_stop)),
            _ => (alias_waiting(w, true, AliasWaitingText::Resolution), AliasActionText::Require(s)),
        },
        AliasWaitingText::Resolution => alias_scan(alias_at(w, w.entry, w.value + 1, w.should_stop)),
        AliasWaitingText::Finished => (w, AliasActionText::NoAlias),
    }
}

/// A walk in order: at an alias (or past the last) and a value of it (or
/// past the last); while it waits on a value, that value is a path of an
/// alias whose key applies; while it waits on a resolution, the alias must
/// not be passed over.
pub open spec fn alias_walk_in_order(w: AliasText) -> bool {
    &&& 0 <= w.entry <= w.aliases.len()
    &&& 0 <= w.value
    &&& w.entry < w.aliases.len() ==> w.value <= w.aliases[w.entry].1.len()
    &&& (w.waiting is FileCheck || w.waiting is Resolution) ==> {
        &&& w.entry < w.aliases.len()
        &&& w.value < w.aliases[w.entry].1.len()
        &&& alias_key_for(w.specifier, w.aliases[w.entry].0) is Some
        &&& w.aliases[w.entry].1[w.value] is Path
    }
    &&& w.waiting is Resolution ==> w.should_stop
}

/// How far a question is along the questions about one value.
pub open spec fn alias_rank(x: AliasWaitingText) -> int {
    match x {
        AliasWaitingText::Begin => 0,
        AliasWaitingText::FileCheck(_) => 1,
        AliasWaitingText::Resolution => 2,
        AliasWaitingText::Finished => 3,
    }
}

/// `b` lies further along the walk than `a`: at a later alias, a later value
/// of the same alias, or a later question about the same value.
pub open spec fn alias_further(a: AliasText, b: AliasText) -> bool {
    ||| b.entry > a.entry
    ||| b.entry == a.entry && b.value > a.value
    ||| b.entry == a.entry && b.value == a.value && alias_rank(b.waiting) > alias_rank(a.waiting)
}

proof fn lemma_scan_forward(w: AliasText)
    requires
        alias_walk_in_order(w),
        w.waiting is Begin,
    ensures
        alias_walk_in_order(alias_scan(w).0),
        !(alias_scan(w).0.waiting is Begin),
        alias_scan(w).0.entry > w.entry || (alias_scan(w).0.entry == w.entry && alias_scan(w).0.value >= w.value),
    decreases w.aliases.len() - w.entry, values_left(w),
{
    if 0 <= w.entry < w.aliases.len() {
        let values = w.aliases[w.entry].1;
        match alias_key_for(w.specifier, w.aliases[w.entry].0) {
            None => lemma_scan_forward(alias_at(w, w.entry + 1, 0, false)),
            Some(key) => if w.value >= values.len() {
                if !w.should_stop {
                    lemma_scan_forward(alias_at(w, w.entry + 1, 0, false));
                }
            } else {
                match values[w.value] {
                    AliasValueText::Path(v) => match alias_plan(w.specifier, key, v) {
                        AliasPlanText::Skip => lemma_scan_forward(alias_at(w, w.entry, w.value + 1, w.should_stop)),
                        _ => {},
                    },
                    _ => {},
                }
            },
        }
    }
}

/// The alias walk comes to an end: each answer keeps it in order and moves
/// it further along (see [`alias_further`]), and the aliases and their
/// values are finitely many.
pub proof fn lemma_alias_walk_moves_forward(w: AliasText, e: AliasEvent)
    requires
        alias_walk_in_order(w),
        alias_expects(w.waiting, e),
    ensures
        alias_walk_in_order(alias_next(w, e).0),
        alias_further(w, alias_next(w, e).0),
{
    match w.waiting {
        AliasWaitingText::Begin => lemma_scan_forward(w),
        AliasWaitingText::FileCheck(_) => match e {
            AliasEvent::IsFile(true) => lemma_scan_forward(alias_at(w, w.entry, w.value + 1, w.should_stop)),
            _ => {},
        },
        _ => lemma_scan_forward(alias_at(w, w.entry, w.value + 1, w.should_stop)),
    }
}

proof fn lemma_scan_stays(w: AliasText)
    requires
        alias_walk_in_order(w),
        0 <= w.entry < w.aliases.len(),
        alias_key_for(w.specifier, w.aliases[w.entry].0) is Some,
        w.should_stop,
    ensures
        alias_scan(w).0.entry == w.entry,
        !(alias_scan(w).1 is NoAlias),
    decreases values_left(w),
{
    let values = w.aliases[w.entry].1;
    let key = alias_key_for(w.specifier, w.aliases[w.entry].0).unwrap();
    if w.value < values.len() {
        match values[w.value] {
            AliasValueText::Path(v) => match alias_plan(w.specifier, key, v) {
                AliasPlanText::Skip => lemma_scan_stays(alias_at(w, w.entry, w.value + 1, w.should_stop)),
                _ => {},
            },
            _ => {},
        }
    }
}

/// An alias whose value was resolved is never passed over: when the
/// resolution finds nothing, the walk goes on with the other values of the
/// same alias, and if none succeeds it fails as a matched alias not found;
/// it never goes on to another alias nor ends without an error.
pub proof fn lemma_resolved_alias_is_not_passed_over(w: AliasText)
    requires
        alias_walk_in_order(w),
        w.waiting is Resolution,
    ensures
        alias_next(w, AliasEvent::NothingFound).0.entry == w.entry,
        !(alias_next(w, AliasEvent::NothingFound).1 is NoAlias),
{
    lemma_scan_stays(alias_at(w, w.entry, w.value + 1, w.should_stop));
}

/// The question an alias walk's action puts is the one its state waits on.
pub open spec fn alias_action_fits(waiting: AliasWaitingText, a: AliasActionText) -> bool {
    match a {
        AliasActionText::IsFile(_) => waiting is FileCheck,
        AliasActionText::Require(_) => waiting is Resolution,
        _ => waiting is Finished,
    }
}

proof fn lemma_scan_fits(w: AliasText)
    ensures
        alias_action_fits(alias_scan(w).0.waiting, alias_scan(w).1),
    decreases w.aliases.len() - w.entry, values_left(w),
{
    if 0 <= w.entry < w.aliases.len() {
        let values = w.aliases[w.entry].1;
        match alias_key_for(w.specifier, w.aliases[w.entry].0) {
            None => lemma_scan_fits(alias_at(w, w.entry + 1, 0, false)),
            Some(key) => if w.value < 0 || w.value >= values.len() {
                if !w.should_stop {
                    lemma_scan_fits(alias_at(w, w.entry + 1, 0, false));
                }
            } else {
                match values[w.value] {
                    AliasValueText::Path(v) => match alias_plan(w.specifier, key, v) {
                        AliasPlanText::Skip => lemma_scan_fits(alias_at(w, w.entry, w.value + 1, w.should_stop)),
                        _ => {},
                    },
                    _ => {},
                }
            },
        }
    }
}

/// Each step of an alias walk that is not over puts a question its new
/// state waits on, or ends it.
pub proof fn lemma_alias_action_fits(w: AliasText, e: AliasEvent)
    requires
        !(w.waiting is Finished),
    ensures
        alias_action_fits(alias_next(w, e).0.waiting, alias_next(w, e).1),
{
    match w.waiting {
        AliasWaitingText::Begin => lemma_scan_fits(w),
        AliasWaitingText::FileCheck(_) => match e {
            AliasEvent::IsFile(true) => lemma_scan_fits(alias_at(w, w.entry, w.value + 1, w.should_stop)),
            _ => {},
        },
        _ => lemma_scan_fits(alias_at(w, w.entry, w.value + 1, w.should_stop)),
    }
}

/// A key that applies is a prefix of the specifier.
proof fn lemma_alias_key_prefix(specifier: Seq<char>, raw_key: Seq<char>)
    ensures
        alias_key_for(specifier, raw_key) matches Some(key) ==> starts_with(specifier, key),
{
    if raw_key.len() > 0 && raw_key.last() == '$' {
        assert(specifier.take(specifier.len() as int) =~= specifier);
    }
}

impl AliasWalk {
    /// The walk is in order (see [`alias_walk_in_order`]).
    pub closed spec fn wf(&self) -> bool {
        alias_walk_in_order(self@)
    }

    /// A walk for `specifier`, requested from the folder `directory`, over
    /// `aliases` (each a raw key, which may end in `$`, and its values), not
    /// begun.
    pub fn new(directory: &str, specifier: &str, aliases: Vec<(String, Vec<AliasValue>)>) -> (w: Self)
        ensures
            w.wf(),
            w@ == (AliasText {
                directory: directory@,
                specifier: specifier@,
                aliases: aliases_text(aliases@),
                entry: 0,
                value: 0,
                should_stop: false,
                waiting: AliasWaitingText::Begin,
            }),
    {
        AliasWalk {
            directory: directory.to_owned(),
            specifier: specifier.to_owned(),
            aliases,
            entry: 0,
            value: 0,
            should_stop: false,
            waiting: AliasWaiting::Begin,
        }
    }

    /// Whether `event` is what the walk waits for (see [`alias_expects`]).
    pub fn expects(&self, event: &AliasEvent) -> (r: bool)
        ensures
            r == alias_expects(self@.waiting, *event),
    {
        match (&self.waiting, event) {
            (AliasWaiting::Begin, AliasEvent::Begin) => true,
            (AliasWaiting::FileCheck(_), AliasEvent::IsFile(_)) => true,
            (AliasWaiting::Resolution, AliasEvent::NothingFound) => true,
            _ => false,
        }
    }

    /// Goes on from the current value to the next question or outcome (see
    /// [`alias_scan`]).
    fn scan(&mut self) -> (a: AliasAction)
        requires
            old(self).wf(),
            old(self)@.waiting is Begin,
        ensures
            final(self).wf(),
            (final(self)@, a@) == alias_scan(old(self)@),
    {
        loop
            invariant
                self.wf(),
                self@.waiting is Begin,
                alias_scan(self@) == alias_scan(old(self)@),
            decreases self@.aliases.len() - self@.entry, values_left(self@),
        {
            if self.entry >= self.aliases.len() {
                self.waiting = AliasWaiting::Finished;
                return AliasAction::NoAlias;
            }
            let ghost w = self@;
            proof {
                assert(w.aliases[w.entry].0 == self.aliases@[self.entry as int].0@);
                assert(w.aliases[w.entry].1 == self.aliases@[self.entry as int].1@.map_values(|v: AliasValue| v@));
            }
            match alias_key_match(self.specifier.as_str(), self.aliases[self.entry].0.as_str()) {
                None => {
                    self.entry = self.entry + 1;
                    self.value = 0;
                    self.should_stop = false;
                },
                Some(key) => {
                    proof {
                        lemma_alias_key_prefix(w.specifier, w.aliases[w.entry].0);
                    }
                    if self.value >= self.aliases[self.entry].1.len() {
                        if self.should_stop {
                            self.waiting = AliasWaiting::Finished;
                            return AliasAction::Fail(ResolveError::MatchedAliasNotFound(self.specifier.clone(), key));
                        }
                        self.entry = self.entry + 1;
                        self.value = 0;
                        self.should_stop = false;
                    } else {
                        proof {
                            assert(w.aliases[w.entry].1[w.value] == self.aliases@[self.entry as int].1@[self.value as int]@);
                        }
                        let plan = match &self.aliases[self.entry].1[self.value] {
                            AliasValue::Ignore => None,
                            AliasValue::Path(v) => Some(plan_alias(self.specifier.as_str(), key.as_str(), v.as_str())),
                        };
                        match plan {
                            None => {
                                self.waiting = AliasWaiting::Finished;
                                return AliasAction::Fail(
                                    ResolveError::Ignored(normalize_with(self.directory.as_str(), key.as_str())),
                                );
                            },
                            Some(AliasPlan::Skip) => {
                                self.value = self.value + 1;
                            },
                            Some(AliasPlan::Use(s)) => {
                                self.should_stop = true;
                                self.waiting = AliasWaiting::Resolution;
                                return AliasAction::Require(s);
                            },
                            Some(AliasPlan::UnlessFile { alias_path, specifier }) => {
                                self.waiting = AliasWaiting::FileCheck(specifier);
                                return AliasAction::IsFile(alias_path);
                            },
                        }
                    }
                },
            }
        }
    }

    /// Tells the walk `event` and returns its next question (see
    /// [`alias_next`]).
    pub fn next(&mut self, event: AliasEvent) -> (a: AliasAction)
        requires
            old(self).wf(),
            alias_expects(old(self)@.waiting, event),
        ensures
            final(self).wf(),
            (final(self)@, a@) == alias_next(old(self)@, event),
    {
        proof {
            let w = old(self)@;
            if w.entry < w.aliases.len() {
                assert(w.aliases[w.entry].1.len() == self.aliases@[self.entry as int].1@.len());
                assert(self.aliases@[self.entry as int].1.len() == self.aliases@[self.entry as int].1@.len());
            }
        }
        let mut waiting = AliasWaiting::Begin;
        std::mem::swap(&mut waiting, &mut self.waiting);
        match waiting {
            AliasWaiting::Begin => self.scan(),
            AliasWaiting::FileCheck(s) => match event {
                AliasEvent::IsFile(true) => {
                    self.value = self.value + 1;
                    self.scan()
                },
                _ => {
                    self.should_stop = true;
                    self.waiting = AliasWaiting::Resolution;
                    AliasAction::Require(s)
                },
            },
            AliasWaiting::Resolution => {
                self.value = self.value + 1;
                self.scan()
            },
            AliasWaiting::Finished => {
                self.waiting = AliasWaiting::Finished;
                AliasAction::NoAlias
            },
        }
    }
}

} // verus!
