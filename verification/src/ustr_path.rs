//! Interned UTF-8 paths, and the canonical Windows spelling of a path.
use vstd::prelude::*;

use std::hash::{Hash, Hasher};

use rustc_hash::FxHasher;

use crate::interner::{Interned, Interner, MAX_SHARD_ENTRIES};
use crate::text::{chars_of, str_eq, string_of};

verus! {

/// Whether `c` separates path segments on Windows.
pub open spec fn is_sep_char(c: char) -> bool {
    c == '/' || c == '\\'
}

pub open spec fn is_ascii_lower(c: char) -> bool {
    'a' <= c && c <= 'z'
}

/// The upper-case form of an ASCII lower-case letter.
pub open spec fn ascii_upper(c: char) -> char {
    (((c as u8) - 32) as u8) as char
}

/// Paths starting with two separators: UNC (`\\server\share`) and verbatim
/// (`\\?\C:\x`) paths, which are never rewritten.
pub open spec fn starts_with_two_separators(s: Seq<char>) -> bool {
    s.len() >= 2 && is_sep_char(s[0]) && is_sep_char(s[1])
}

/// `c:...`: a drive letter that is not yet in upper case.
pub open spec fn has_lowercase_drive(s: Seq<char>) -> bool {
    s.len() >= 2 && is_ascii_lower(s[0]) && s[1] == ':'
}

/// The separator at `i` is one a canonical Windows path would not hold there:
/// a forward slash, a repeated separator, or a trailing separator that is not a
/// root (`\` alone, or a drive root `C:\`).
pub open spec fn is_misplaced_separator(s: Seq<char>, i: int) -> bool {
    &&& is_sep_char(s[i])
    &&& {
        ||| s[i] == '/'
        ||| (i > 0 && is_sep_char(s[i - 1]))
        ||| (i + 1 == s.len() && i > 0 && s[i - 1] != ':')
    }
}

/// `s` is already in canonical Windows form: `\` separators only, no repeated
/// separator, no trailing separator except on a root, and an upper-case drive
/// letter. UNC and verbatim paths count as canonical, as they are left alone.
pub open spec fn is_canonical_windows_path(s: Seq<char>) -> bool {
    ||| starts_with_two_separators(s)
    ||| {
        &&& !has_lowercase_drive(s)
        &&& forall|i: int| 0 <= i < s.len() ==> !#[trigger] is_misplaced_separator(s, i)
    }
}

/// The character that a non-separator at `i` becomes: the drive letter of
/// `x:` is upper-cased, everything else is kept.
pub open spec fn canonical_char(s: Seq<char>, i: int) -> char {
    if i == 0 && s.len() >= 2 && s[1] == ':' && is_ascii_lower(s[0]) {
        ascii_upper(s[0])
    } else {
        s[i]
    }
}

/// The first `n` characters of `s` with every run of separators written as a
/// single `\`, and the drive letter upper-cased.
pub open spec fn collapse_separators(s: Seq<char>, n: nat) -> Seq<char>
    decreases n,
{
    if n == 0 {
        Seq::empty()
    } else {
        let prev = collapse_separators(s, (n - 1) as nat);
        let i = n - 1;
        if is_sep_char(s[i]) {
            if i > 0 && is_sep_char(s[i - 1]) {
                prev
            } else {
                prev.push('\\')
            }
        } else {
            prev.push(canonical_char(s, i))
        }
    }
}

/// Drops a trailing `\` unless it is the whole path or a drive root `x:\`.
pub open spec fn drop_trailing_separator(o: Seq<char>) -> Seq<char> {
    if o.len() > 1 && o.last() == '\\' && o[o.len() - 2] != ':' {
        o.drop_last()
    } else {
        o
    }
}

/// The canonical Windows spelling of `s`.
pub open spec fn canonical_windows_form(s: Seq<char>) -> Seq<char> {
    drop_trailing_separator(collapse_separators(s, s.len()))
}

/// Two `\` in a row at `k`.
pub open spec fn is_double_backslash_at(o: Seq<char>, k: int) -> bool {
    o[k] == '\\' && o[k + 1] == '\\'
}

proof fn lemma_ascii_upper_is_letter(c: char)
    requires
        is_ascii_lower(c),
    ensures
        'A' <= ascii_upper(c) <= 'Z',
{
    assert((c as u32) < 256);
    assert((c as u8) as u32 == c as u32);
}

proof fn lemma_canonical_char_keeps_non_separators(s: Seq<char>, i: int)
    requires
        0 <= i < s.len(),
        !is_sep_char(s[i]),
    ensures
        !is_sep_char(canonical_char(s, i)),
        canonical_char(s, i) != ':' || s[i] == ':',
{
    if i == 0 && s.len() >= 2 && s[1] == ':' && is_ascii_lower(s[0]) {
        lemma_ascii_upper_is_letter(s[0]);
    }
}

/// The shape of a collapsed prefix: no `/`, no `\\`, a trailing `\` exactly
/// when the last input character is a separator, and the first two output
/// characters come from the first two input characters.
proof fn lemma_collapse_shape(s: Seq<char>, n: nat)
    requires
        n <= s.len(),
        !starts_with_two_separators(s),
    ensures
        ({
            let o = collapse_separators(s, n);
            &&& o.len() <= n
            &&& forall|k: int| 0 <= k < o.len() ==> #[trigger] o[k] != '/'
            &&& forall|k: int| 0 <= k < o.len() - 1 ==> !#[trigger] is_double_backslash_at(o, k)
            &&& n > 0 ==> o.len() > 0 && (o.last() == '\\' <==> is_sep_char(s[n - 1]))
            &&& n >= 1 ==> o[0] == (if is_sep_char(s[0]) { '\\' } else { canonical_char(s, 0) })
            &&& n >= 2 ==> o.len() >= 2 && o[1] == (if is_sep_char(s[1]) { '\\' } else { canonical_char(s, 1) })
        }),
    decreases n,
{
    if n > 0 {
        let m = (n - 1) as nat;
        lemma_collapse_shape(s, m);
        let prev = collapse_separators(s, m);
        let o = collapse_separators(s, n);
        let i = n - 1;
        if !is_sep_char(s[i]) {
            lemma_canonical_char_keeps_non_separators(s, i);
        }
        assert forall|k: int| 0 <= k < o.len() implies #[trigger] o[k] != '/' by {
            if k < prev.len() {
                assert(o[k] == prev[k]);
            }
        }
        assert forall|k: int| 0 <= k < o.len() - 1 implies !#[trigger] is_double_backslash_at(o, k) by {
            if k + 1 < prev.len() {
                assert(o[k] == prev[k]);
                assert(o[k + 1] == prev[k + 1]);
                assert(!is_double_backslash_at(prev, k));
            }
        }
    }
}

/// The canonical spelling of a path that is not UNC or verbatim is itself
/// canonical, so rewriting it a second time changes nothing.
pub proof fn lemma_canonical_form_is_canonical(s: Seq<char>)
    requires
        !starts_with_two_separators(s),
    ensures
        is_canonical_windows_path(canonical_windows_form(s)),
{
    let o = collapse_separators(s, s.len());
    lemma_collapse_shape(s, s.len());
    let t = canonical_windows_form(s);
    assert(t.len() <= o.len());
    assert forall|k: int| 0 <= k < t.len() implies t[k] == o[k] by {}
    if has_lowercase_drive(t) {
        assert(o[1] == ':');
        assert(!is_sep_char(s[1]));
        lemma_canonical_char_keeps_non_separators(s, 1);
        if is_sep_char(s[0]) {
            assert(o[0] == '\\');
        } else if is_ascii_lower(s[0]) {
            lemma_ascii_upper_is_letter(s[0]);
        }
        assert(false);
    }
    assert forall|i: int| 0 <= i < t.len() implies !#[trigger] is_misplaced_separator(t, i) by {
        if is_misplaced_separator(t, i) {
            assert(t[i] == o[i]);
            assert(o[i] != '/');
            if i > 0 && is_sep_char(t[i - 1]) {
                assert(t[i - 1] == o[i - 1]);
                assert(o[i - 1] != '/');
                assert(is_double_backslash_at(o, i - 1));
            } else {
                assert(i + 1 == t.len() && i > 0 && t[i - 1] != ':');
                if t.len() == o.len() {
                    assert(t =~= o);
                } else {
                    assert(t =~= o.drop_last());
                    assert(is_double_backslash_at(o, i));
                }
            }
        }
    }
}

/// The canonical spelling of a path that is not UNC or verbatim holds no
/// `/` and is no longer than the path.
pub proof fn lemma_canonical_form_shape(s: Seq<char>)
    requires
        !starts_with_two_separators(s),
    ensures
        canonical_windows_form(s).len() <= s.len(),
        forall|k: int| 0 <= k < canonical_windows_form(s).len() ==> #[trigger] canonical_windows_form(s)[k] != '/',
{
    let o = collapse_separators(s, s.len());
    lemma_collapse_shape(s, s.len());
    let t = canonical_windows_form(s);
    assert(t.len() <= o.len());
    assert forall|k: int| 0 <= k < t.len() implies #[trigger] t[k] != '/' by {
        assert(t[k] == o[k]);
    }
}

fn is_sep(c: char) -> (r: bool)
    ensures
        r == is_sep_char(c),
{
    c == '/' || c == '\\'
}

fn is_ascii_lowercase(c: char) -> (r: bool)
    ensures
        r == is_ascii_lower(c),
{
    'a' <= c && c <= 'z'
}

fn to_ascii_uppercase(c: char) -> (r: char)
    requires
        is_ascii_lower(c),
    ensures
        r == ascii_upper(c),
{
    ((c as u8) - 32) as char
}

/// Whether some separator of `chars` is misplaced.
fn has_misplaced_separator(chars: &Vec<char>) -> (r: bool)
    ensures
        r == exists|i: int| 0 <= i < chars@.len() && #[trigger] is_misplaced_separator(chars@, i),
{
    let n = chars.len();
    let mut prev_was_sep = false;
    let mut i: usize = 0;
    while i < n
        invariant
            n == chars@.len(),
            i <= n,
            prev_was_sep == (i > 0 && is_sep_char(chars@[i - 1])),
            forall|j: int| 0 <= j < i ==> !#[trigger] is_misplaced_separator(chars@, j),
        decreases n - i,
    {
        let c = chars[i];
        if is_sep(c) {
            if c == '/' || prev_was_sep || (i + 1 == n && i > 0 && chars[i - 1] != ':') {
                assert(is_misplaced_separator(chars@, i as int));
                return true;
            }
            prev_was_sep = true;
        } else {
            prev_was_sep = false;
        }
        i = i + 1;
    }
    false
}

/// Rewrite `s` into canonical Windows form: `\` separators, no repeated
/// separators, no trailing separator (roots excepted), and an upper-case
/// drive letter.
///
/// Returns `None` when `s` is already canonical, so the caller can keep the
/// string it has. Paths beginning with two separators (UNC and verbatim)
/// pass through untouched.
pub fn normalize_windows_separators(s: &str) -> (r: Option<String>)
    ensures
        match r {
            None => is_canonical_windows_path(s@),
            Some(out) => !is_canonical_windows_path(s@) && out@ == canonical_windows_form(s@),
        },
{
    let chars = chars_of(s);
    let n = chars.len();
    if n >= 2 && is_sep(chars[0]) && is_sep(chars[1]) {
        return None;
    }
    let lowercase_drive = n >= 2 && is_ascii_lowercase(chars[0]) && chars[1] == ':';
    if !lowercase_drive && !has_misplaced_separator(&chars) {
        return None;
    }
    let fold_drive = n >= 2 && chars[1] == ':';
    let mut out: Vec<char> = Vec::new();
    let mut prev_was_sep = false;
    let mut i: usize = 0;
    while i < n
        invariant
            n == chars@.len(),
            chars@ == s@,
            i <= n,
            fold_drive == (n >= 2 && chars@[1] == ':'),
            prev_was_sep == (i > 0 && is_sep_char(chars@[i - 1])),
            out@ == collapse_separators(chars@, i as nat),
        decreases n - i,
    {
        let c = chars[i];
        if is_sep(c) {
            if !prev_was_sep {
                out.push('\\');
            }
            prev_was_sep = true;
        } else if i == 0 && fold_drive && is_ascii_lowercase(c) {
            out.push(to_ascii_uppercase(c));
            prev_was_sep = false;
        } else {
            out.push(c);
            prev_was_sep = false;
        }
        i = i + 1;
    }
    let len = out.len();
    if len > 1 && out[len - 1] == '\\' && out[len - 2] != ':' {
        out.pop();
    }
    Some(string_of(&out))
}

/// `FxHasher::default`, then `Hasher::write(bytes)` and `Hasher::finish`:
/// the Fx hash of the bytes. Nothing is stated of the value: `rustc-hash`
/// mixes differently on different targets, even of one word size, so it is
/// no function of the bytes alone.
#[verifier::external_body]
fn fx_hash_bytes(bytes: &[u8]) -> (h: u64) {
    let mut hasher = FxHasher::default();
    hasher.write(bytes);
    hasher.finish()
}

/// Debug formatting of a string slice: the string quoted and escaped.
pub uninterp spec fn str_debug_text(s: Seq<char>) -> Seq<char>;

/// `format!("{:?}", s)`: the standard library's `Debug` rendering of `s`.
#[verifier::external_body]
fn str_debug(s: &str) -> (r: String)
    ensures
        r@ == str_debug_text(s@),
{
    format!("{:?}", s)
}

/// Hash a path the way [`UstrPath`]'s `PartialEq` compares it: byte-wise,
/// with the Fx hash of its UTF-8 bytes (of which nothing is stated, see
/// [`fx_hash_bytes`]).
fn hash_path_str(s: &str) -> (h: u64) {
    fx_hash_bytes(s.as_bytes())
}

/// An interned UTF-8 path.
///
/// One pointer wide: a handle to an interner entry holding the path and its
/// hash. Paths are stored verbatim. Equality is that of the stored strings, so
/// a pointer check settles byte-identical paths, and hashing is a read of the
/// hash computed when the path was interned.
pub struct UstrPath(Interned);

impl View for UstrPath {
    type V = Seq<char>;

    closed spec fn view(&self) -> Seq<char> {
        self.0@.0
    }
}

impl UstrPath {
    /// The hash stored with the path when it was interned.
    pub closed spec fn spec_hash(&self) -> u64 {
        self.0@.1
    }

    /// Intern `path` verbatim and return a handle to it.
    ///
    /// The string is stored exactly as given: callers put specifiers such as
    /// `./build.txt` into path sets and read them back, so rewriting them here
    /// would change observable values.
    pub fn new(interner: &mut Interner, path: &str) -> (r: Self)
        requires
            old(interner).wf(),
        ensures
            final(interner).wf(),
            r@ == path@,
            old(interner)@.contains((path@, r.spec_hash())) ==> final(interner)@ == old(interner)@,
            forall|k: (Seq<char>, u64)|
                k != (path@, r.spec_hash()) ==> #[trigger] final(interner)@.count(k) <= old(interner)@.count(k),
            old(interner).shard_len(r.spec_hash()) < MAX_SHARD_ENTRIES ==> final(interner)@.contains(
                (path@, r.spec_hash()),
            ),
    {
        let hash = hash_path_str(path);
        UstrPath(interner.intern(path, hash))
    }

    /// Borrows from `self`: the entry is freed once the last handle drops.
    pub fn as_str(&self) -> (r: &str)
        ensures
            r@ == self@,
    {
        self.0.as_str()
    }

    /// The hash used for set and map lookups, computed once when the path was
    /// interned and read back from the entry.
    pub fn precomputed_hash(&self) -> (h: u64)
        ensures
            h == self.spec_hash(),
    {
        self.0.hash()
    }

    /// How many handles currently share this interned string, the interner's
    /// own included. A snapshot: other handles may come and go.
    pub fn refcount(&self) -> (n: usize)
        ensures
            n >= 1,
    {
        self.0.refcount()
    }

    /// The `Debug` rendering of the path: the string, quoted and escaped.
    pub fn debug_string(&self) -> (r: String)
        ensures
            r@ == str_debug_text(self@),
    {
        str_debug(self.as_str())
    }

    /// The `Display` rendering of the path: the string itself.
    pub fn to_string(&self) -> (r: String)
        ensures
            r@ == self@,
    {
        self.as_str().to_owned()
    }
}

/// Paths with the same string are equal, whichever handles hold them: two
/// paths made from one string compare equal, and `==` is reflexive and
/// symmetric.
pub proof fn lemma_same_string_same_path(a: UstrPath, b: UstrPath)
    requires
        a@ == b@,
    ensures
        vstd::std_specs::cmp::PartialEqSpec::eq_spec(&a, &b),
        vstd::std_specs::cmp::PartialEqSpec::eq_spec(&b, &a),
        vstd::std_specs::cmp::PartialEqSpec::eq_spec(&a, &a),
{
}

impl Clone for UstrPath {
    fn clone(&self) -> (r: Self)
        ensures
            r@ == self@,
            r.spec_hash() == self.spec_hash(),
    {
        UstrPath(self.0.clone())
    }
}

impl Default for UstrPath {
    /// The empty path.
    fn default() -> (r: Self)
        ensures
            r@ == Seq::<char>::empty(),
    {
        let hash = hash_path_str("");
        proof {
            reveal_strlit("");
        }
        UstrPath(Interned::detached("", hash))
    }
}

impl PartialEq for UstrPath {
    /// Paths are equal when their strings are. Byte-identical paths share
    /// one entry, so the pointer check settles them at once; other handles
    /// compare their strings.
    fn eq(&self, other: &Self) -> (r: bool) {
        if self.0.ptr_eq(&other.0) {
            return true;
        }
        str_eq(self.0.as_str(), other.0.as_str())
    }
}

impl vstd::std_specs::cmp::PartialEqSpecImpl for UstrPath {
    open spec fn obeys_eq_spec() -> bool {
        true
    }

    open spec fn eq_spec(&self, other: &UstrPath) -> bool {
        self@ == other@
    }
}

impl Eq for UstrPath {}

impl Hash for UstrPath {
    /// One `write_u64` of the hash computed when the path was interned.
    #[verifier::external_body]
    fn hash<H: Hasher>(&self, state: &mut H) {
        state.write_u64(self.precomputed_hash());
    }
}

/// Convert a path-shaped value into an interned [`UstrPath`].
pub trait ToUstrPath {
    /// The path the value spells.
    spec fn path_text(&self) -> Seq<char>;

    fn to_ustr_path(&self, interner: &mut Interner) -> (r: UstrPath)
        requires
            old(interner).wf(),
        ensures
            final(interner).wf(),
            r@ == self.path_text(),
    ;
}

impl ToUstrPath for str {
    open spec fn path_text(&self) -> Seq<char> {
        self@
    }

    fn to_ustr_path(&self, interner: &mut Interner) -> (r: UstrPath) {
        UstrPath::new(interner, self)
    }
}

impl ToUstrPath for String {
    open spec fn path_text(&self) -> Seq<char> {
        self@
    }

    fn to_ustr_path(&self, interner: &mut Interner) -> (r: UstrPath) {
        UstrPath::new(interner, self.as_str())
    }
}

impl ToUstrPath for UstrPath {
    open spec fn path_text(&self) -> Seq<char> {
        self@
    }

    /// Another handle to the same entry; the interner is not consulted.
    fn to_ustr_path(&self, interner: &mut Interner) -> (r: UstrPath) {
        self.clone()
    }
}

/// Passes an already-computed hash straight through.
///
/// [`UstrPath`]'s `Hash` writes the hash computed when the path was interned,
/// so re-mixing it here would be wasted work. Only `write_u64` is meant to be
/// used; any other write folds its bytes with the Fx hash rather than
/// yielding 0, so a misuse degrades performance instead of collapsing every
/// key into one bucket.
#[derive(Default, Clone, Copy)]
pub struct IdentityHasher(u64);

/// A set of paths keyed by the hash computed when each path was interned.
pub type UstrPathSet = std::collections::HashSet<UstrPath, std::hash::BuildHasherDefault<IdentityHasher>>;

impl IdentityHasher {
    /// The value `finish` returns.
    pub closed spec fn state(self) -> u64 {
        self.0
    }
}

impl Hasher for IdentityHasher {
    /// Folds the bytes with the Fx hash (see [`fx_hash_bytes`]).
    fn write(&mut self, bytes: &[u8]) {
        self.0 = fx_hash_bytes(bytes);
    }

    fn write_u64(&mut self, n: u64)
        ensures
            final(self).state() == n,
    {
        self.0 = n;
    }

    fn finish(&self) -> (h: u64)
        ensures
            h == self.state(),
    {
        self.0
    }
}

} // verus!
