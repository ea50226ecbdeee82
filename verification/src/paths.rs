//! Paths as text, with `/` between the names.
use crate::number::to_decimal;
#[allow(unused_imports)]
use crate::number::{decimal, is_digit, lemma_decimal_digits};
use crate::text::{contains, owned, slice, split_at_char, starts_with, str_equal, trim};
#[allow(unused_imports)]
use crate::text::{has_prefix, has_substring, occurs_at, split_on, texts, trimmed};
use vstd::prelude::*;

verus! {

/// The path starts at the root.
pub open spec fn absolute(path: Seq<char>) -> bool {
    path.len() > 0 && path[0] == '/'
}

/// The names of a list of pieces: empty pieces do not count, and `.` counts
/// only as the first piece.
pub open spec fn kept_names(pieces: Seq<Seq<char>>) -> Seq<Seq<char>>
    decreases pieces.len(),
{
    if pieces.len() == 0 {
        Seq::empty()
    } else {
        let before = kept_names(pieces.drop_last());
        let piece = pieces.last();
        if piece.len() == 0 || (piece == seq!['.'] && pieces.len() > 1) {
            before
        } else {
            before.push(piece)
        }
    }
}

/// The names that a path goes through.
pub open spec fn path_names(path: Seq<char>) -> Seq<Seq<char>> {
    kept_names(split_on(path, '/'))
}

/// Two spellings of one path: repeated and trailing slashes and inner `.`
/// names make no difference.
pub open spec fn same_path(a: Seq<char>, b: Seq<char>) -> bool {
    absolute(a) == absolute(b) && path_names(a) == path_names(b)
}

/// The last name of a path, if it names a file.
pub open spec fn last_name(path: Seq<char>) -> Option<Seq<char>> {
    let names = path_names(path);
    if names.len() == 0 || names.last() == seq!['.'] || names.last() == seq!['.', '.'] {
        None
    } else {
        Some(names.last())
    }
}

/// The path that `path` means below `base`.
pub open spec fn path_below(base: Seq<char>, path: Seq<char>) -> Seq<char> {
    if absolute(path) {
        path
    } else if base.len() > 0 && base.last() != '/' {
        base.push('/') + path
    } else {
        base + path
    }
}

/// The path seen from the working directory, if there is one.
pub open spec fn full_path(path: Seq<char>, cwd: Option<Seq<char>>) -> Seq<char> {
    match cwd {
        Some(dir) => path_below(dir, path),
        None => path,
    }
}

/// The path that a user typed: white space around it does not count, and a
/// leading `~/` stands for the home directory.
pub open spec fn typed_path(
    input: Seq<char>,
    home: Option<Seq<char>>,
    cwd: Option<Seq<char>>,
) -> Seq<char> {
    let path = trimmed(input);
    if has_prefix(path, seq!['~', '/']) && home is Some {
        full_path(path_below(home->0, path.skip(2)), cwd)
    } else {
        full_path(path, cwd)
    }
}

/// A name that stays inside the directory it is looked up in.
pub open spec fn safe_name(name: Seq<char>) -> bool {
    &&& name.len() > 0
    &&& !name.contains('/')
    &&& !name.contains('\\')
    &&& !has_substring(name, seq!['.', '.'])
}

/// The name of the file that keeps the unsaved text of a tab.
pub open spec fn autosave_name(index: nat) -> Seq<char> {
    "tab-"@ + decimal(index) + ".txt"@
}

/// The view of an optional string slice.
pub open spec fn opt_str(s: Option<&str>) -> Option<Seq<char>> {
    match s {
        Some(t) => Some(t@),
        None => None,
    }
}

/// Whether a path starts at the root.
pub fn is_absolute(path: &str) -> (yes: bool)
    ensures
        yes == absolute(path@),
{
    if path.is_empty() {
        false
    } else {
        path.get_char(0) == '/'
    }
}

fn kept(pieces: &Vec<String>) -> (out: Vec<String>)
    ensures
        texts(out@) == kept_names(texts(pieces@)),
{
    let mut out: Vec<String> = Vec::new();
    let mut i: usize = 0;
    proof {
        reveal_strlit(".");
        assert("."@ =~= seq!['.']);
        assert(texts(pieces@).take(0) =~= Seq::empty());
        assert(texts(out@) =~= Seq::empty());
    }
    while i < pieces.len()
        invariant
            i <= pieces@.len(),
            "."@ == seq!['.'],
            texts(out@) == kept_names(texts(pieces@).take(i as int)),
        decreases pieces@.len() - i,
    {
        let ghost next = texts(pieces@).take(i + 1);
        let ghost done = texts(out@);
        proof {
            assert(next.drop_last() =~= texts(pieces@).take(i as int));
            assert(next.last() == pieces@[i as int]@);
        }
        let piece = pieces[i].as_str();
        if !piece.is_empty() && !(str_equal(piece, ".") && i > 0) {
            out.push(owned(piece));
            proof {
                assert(texts(out@) =~= done.push(piece@));
            }
        }
        i += 1;
    }
    proof {
        assert(texts(pieces@).take(i as int) =~= texts(pieces@));
    }
    out
}

/// The names that a path goes through.
pub fn names_of(path: &str) -> (out: Vec<String>)
    ensures
        texts(out@) == path_names(path@),
{
    kept(&split_at_char(path, '/'))
}

/// Whether two paths are spellings of one path.
pub fn is_same_path(a: &str, b: &str) -> (yes: bool)
    ensures
        yes == same_path(a@, b@),
{
    is_absolute(a) == is_absolute(b) && crate::text::texts_equal(&names_of(a), &names_of(b))
}

/// The last name of a path, if it names a file.
pub fn file_name(path: &str) -> (out: Option<String>)
    ensures
        crate::text::opt_text(out) == last_name(path@),
{
    let mut names = names_of(path);
    let ghost all = texts(names@);
    proof {
        reveal_strlit(".");
        reveal_strlit("..");
        assert("."@ =~= seq!['.']);
        assert(".."@ =~= seq!['.', '.']);
    }
    match names.pop() {
        None => None,
        Some(name) => {
            assert(all.last() == name@);
            if str_equal(name.as_str(), ".") || str_equal(name.as_str(), "..") {
                None
            } else {
                Some(name)
            }
        },
    }
}

/// The path that `path` means below `base`.
pub fn join(base: &str, path: &str) -> (out: String)
    ensures
        out@ == path_below(base@, path@),
{
    if is_absolute(path) {
        return owned(path);
    }
    let mut out = owned(base);
    let len: usize = base.unicode_len();
    if len > 0 && base.get_char(len - 1) != '/' {
        out.push('/');
    }
    out.append(path);
    out
}

/// The path seen from the working directory.
pub fn normalize_path_for_match(path: &str, cwd: Option<&str>) -> (out: String)
    ensures
        out@ == full_path(path@, opt_str(cwd)),
{
    match cwd {
        Some(dir) => join(dir, path),
        None => owned(path),
    }
}

/// The path that a user typed.
pub fn resolve_user_path(input: &str, home: Option<&str>, cwd: Option<&str>) -> (out: String)
    ensures
        out@ == typed_path(input@, opt_str(home), opt_str(cwd)),
{
    let path = trim(input);
    proof {
        reveal_strlit("~/");
        assert("~/"@ =~= seq!['~', '/']);
    }
    if let Some(dir) = home {
        if starts_with(path.as_str(), "~/") {
            let len: usize = path.as_str().unicode_len();
            let rest = slice(path.as_str(), 2, len);
            assert(rest@ =~= path@.skip(2));
            let below = join(dir, rest.as_str());
            return normalize_path_for_match(below.as_str(), cwd);
        }
    }
    normalize_path_for_match(path.as_str(), cwd)
}

/// Whether a name stays inside the directory it is looked up in.
pub fn is_safe_autosave_name(name: &str) -> (yes: bool)
    ensures
        yes == safe_name(name@),
{
    proof {
        reveal_strlit("..");
        assert(".."@ =~= seq!['.', '.']);
    }
    !name.is_empty() && !holds_char(name, '/') && !holds_char(name, '\\') && !contains(name, "..")
}

/// Whether a character stands in a text.
pub fn holds_char(text: &str, c: char) -> (yes: bool)
    ensures
        yes == text@.contains(c),
{
    let chars = crate::text::to_chars(text);
    for i in 0..chars.len()
        invariant
            chars@ == text@,
            forall|j: int| 0 <= j < i ==> chars@[j] != c,
    {
        if chars[i] == c {
            assert(text@[i as int] == c);
            return true;
        }
    }
    false
}

/// The name of the file that keeps the unsaved text of a tab.
pub fn autosave_file_name(index: usize) -> (out: String)
    ensures
        out@ == autosave_name(index as nat),
{
    let mut out = owned("tab-");
    out.append(to_decimal(index as u128).as_str());
    out.append(".txt");
    out
}

/// Where the session is kept.
#[derive(Debug)]
pub struct SessionPaths {
    pub session_file: String,
    pub autosave_dir: String,
}

impl SessionPaths {
    /// The session below a state directory.
    pub fn resolve(base: &str) -> (out: Self)
        ensures
            out.session_file@ == path_below(path_below(base@, "garedit"@), "session.json"@),
            out.autosave_dir@ == path_below(path_below(base@, "garedit"@), "autosave"@),
    {
        let state_dir = join(base, "garedit");
        SessionPaths {
            session_file: join(state_dir.as_str(), "session.json"),
            autosave_dir: join(state_dir.as_str(), "autosave"),
        }
    }

    /// The file that keeps the unsaved text of a tab.
    pub fn autosave_path_for_index(&self, index: usize) -> (out: String)
        ensures
            out@ == path_below(self.autosave_dir@, autosave_name(index as nat)),
    {
        join(self.autosave_dir.as_str(), autosave_file_name(index).as_str())
    }
}

/// Being spellings of one path is an equivalence.
pub proof fn law_same_path_is_an_equivalence(a: Seq<char>, b: Seq<char>, c: Seq<char>)
    ensures
        same_path(a, a),
        same_path(a, b) ==> same_path(b, a),
        same_path(a, b) && same_path(b, c) ==> same_path(a, c),
{
}

/// Seen from an absolute working directory every path is absolute, and seen
/// from there again it stays as it is.
pub proof fn law_full_paths_are_final(path: Seq<char>, dir: Seq<char>)
    requires
        absolute(dir),
    ensures
        absolute(full_path(path, Some(dir))),
        full_path(full_path(path, Some(dir)), Some(dir)) == full_path(path, Some(dir)),
{
}

/// The names under which unsaved texts are kept are safe names.
pub proof fn law_autosave_names_are_safe(index: nat)
    ensures
        safe_name(autosave_name(index)),
{
    let digits = decimal(index);
    let name = autosave_name(index);
    lemma_decimal_digits(index);
    reveal_strlit("tab-");
    reveal_strlit(".txt");
    let n = digits.len() as int;
    assert forall|k: int| 0 <= k < name.len() implies (#[trigger] name[k] != '/' && name[k] != '\\'
        && (name[k] == '.' ==> k == n + 4)) by {
        if 4 <= k < n + 4 {
            assert(name[k] == digits[k - 4]);
            assert(is_digit(digits[k - 4]));
        }
    }
    assert forall|i: int| !occurs_at(name, seq!['.', '.'], i) by {
        if occurs_at(name, seq!['.', '.'], i) {
            let two = name.subrange(i, i + 2);
            assert(two[0] == '.' && two[1] == '.');
            assert(name[i] == '.');
            assert(name[i + 1] == '.');
        }
    }
}

/// An absolute path stays as it is; any other stands behind the directory, with
/// a slash between them unless the directory is empty or ends in one.
pub proof fn law_paths_stand_below(base: Seq<char>, path: Seq<char>)
    ensures
        ({
            let all = path_below(base, path);
            &&& absolute(path) ==> all == path
            &&& !absolute(path) ==> {
                &&& has_prefix(all, base)
                &&& all.skip(all.len() - path.len()) == path
                &&& base.len() == 0 || base.last() == '/' ==> all.len() == base.len() + path.len()
                &&& base.len() > 0 && base.last() != '/' ==> all.len() == base.len() + 1
                    + path.len() && all[base.len() as int] == '/'
            }
        }),
{
    let all = path_below(base, path);
    if !absolute(path) {
        assert(all.subrange(0, base.len() as int) =~= base);
        assert(all.skip(all.len() - path.len()) =~= path);
    }
}

/// What a user types is a path of its own if it is absolute, one in the home
/// directory behind `~/`, and else one in the working directory.
pub proof fn law_typed_paths(
    input: Seq<char>,
    rest: Seq<char>,
    home: Option<Seq<char>>,
    cwd: Option<Seq<char>>,
)
    ensures
        ({
            let path = trimmed(input);
            &&& absolute(path) ==> typed_path(input, home, cwd) == path
            &&& path == seq!['~', '/'] + rest && home is Some && absolute(home->0) ==> typed_path(
                input,
                home,
                cwd,
            ) == path_below(home->0, rest)
            &&& (path.len() == 0 || path[0] != '~' || home is None) && cwd is Some ==> typed_path(
                input,
                home,
                cwd,
            ) == path_below(cwd->0, path)
            &&& (path.len() == 0 || path[0] != '~' || home is None) && cwd is None ==> typed_path(
                input,
                home,
                cwd,
            ) == path
        }),
{
    let path = trimmed(input);
    if has_prefix(path, seq!['~', '/']) {
        assert(path.subrange(0, 2)[0] == '~');
        assert(path[0] == '~');
    }
    if path == seq!['~', '/'] + rest {
        assert(path.subrange(0, 2) =~= seq!['~', '/']);
        assert(path.skip(2) =~= rest);
    }
}

proof fn lemma_split_behind(a: Seq<char>, b: Seq<char>)
    ensures
        split_on(a.push('/') + b, '/') == split_on(a, '/') + split_on(b, '/'),
        split_on(b, '/').len() > 0,
    decreases b.len(),
{
    let all = a.push('/') + b;
    if b.len() == 0 {
        assert(all =~= a.push('/'));
        assert(all.drop_last() =~= a);
        assert(split_on(all, '/') =~= split_on(a, '/') + split_on(b, '/'));
    } else {
        lemma_split_behind(a, b.drop_last());
        assert(all.drop_last() =~= a.push('/') + b.drop_last());
        assert(all.last() == b.last());
        assert(split_on(all, '/') =~= split_on(a, '/') + split_on(b, '/'));
    }
}

proof fn lemma_unsplit(s: Seq<char>)
    requires
        !s.contains('/'),
    ensures
        split_on(s, '/') == seq![s],
    decreases s.len(),
{
    if s.len() > 0 {
        let t = s.drop_last();
        assert forall|i: int| 0 <= i < t.len() implies t[i] != '/' by {
            assert(t[i] == s[i]);
            assert(s.contains(s[i]));
        }
        lemma_unsplit(t);
        assert(s.contains(s.last()));
        assert(t.push(s.last()) =~= s);
        assert(split_on(s, '/') =~= seq![s]);
    } else {
        assert(s =~= Seq::<char>::empty());
    }
}

/// The last name of a path is what stands behind its last slash; a slash at the
/// end does not count, and `.` and `..` are no names of files.
pub proof fn law_the_last_name_names_the_file(dir: Seq<char>, name: Seq<char>)
    requires
        !name.contains('/'),
        name.len() > 0,
    ensures
        ({
            let dots = name == seq!['.'] || name == seq!['.', '.'];
            &&& !dots ==> last_name(dir.push('/') + name) == Some(name)
            &&& !dots ==> last_name((dir.push('/') + name).push('/')) == Some(name)
            &&& !dots ==> last_name(name) == Some(name)
            &&& dots ==> last_name(name) is None
            &&& name == seq!['.', '.'] ==> last_name(dir.push('/') + name) is None
        }),
{
    lemma_unsplit(name);
    lemma_split_behind(dir, name);
    let before = split_on(dir, '/');
    let all = dir.push('/') + name;
    let pieces = split_on(all, '/');
    lemma_split_behind(dir, Seq::empty());
    assert(pieces =~= before.push(name));
    assert(pieces.drop_last() =~= before);
    assert(all.push('/').drop_last() =~= all);
    let more = split_on(all.push('/'), '/');
    assert(more =~= pieces.push(Seq::empty()));
    assert(more.drop_last() =~= pieces);
    assert(seq![name].drop_last() =~= Seq::<Seq<char>>::empty());
    assert(kept_names(Seq::<Seq<char>>::empty()) =~= Seq::<Seq<char>>::empty());
    assert(seq!['.'].len() == 1);
    assert(seq!['.', '.'].len() == 2);
}

/// A name is safe if it is not empty, has no slash of either kind and nowhere
/// two dots in a row.
pub proof fn law_unsafe_names(a: Seq<char>, b: Seq<char>)
    ensures
        !safe_name(Seq::empty()),
        !safe_name(a.push('/') + b),
        !safe_name(a.push('\\') + b),
        !safe_name(a + seq!['.', '.'] + b),
{
    let n = a.len() as int;
    assert((a.push('/') + b)[n] == '/');
    assert((a.push('\\') + b)[n] == '\\');
    let s = a + seq!['.', '.'] + b;
    assert(s.subrange(n, n + 2) =~= seq!['.', '.']);
    assert(occurs_at(s, seq!['.', '.'], n));
}

} // verus!
