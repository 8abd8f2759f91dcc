//! Names under which uploaded images are stored.
//!
//! A stored name is a fresh random token, a dot, and the extension of the
//! name the file was uploaded under (`jpg` where that name has none). The
//! uploaded name is not trusted and is never used for anything else.

use vstd::prelude::*;
use vstd::string::StringExecFns;
use crate::text::{chars_of, free_of, last_piece_start, lemma_last_piece_start, piece_start_before, string_of};

verus! {

/// The index just after the last `/` of `s`, or 0 where `s` has none.
pub open spec fn piece_start(s: Seq<char>) -> int {
    last_piece_start(s, '/')
}

/// Whether `piece` is the single character `.`.
pub open spec fn is_dot(piece: Seq<char>) -> bool {
    piece.len() == 1 && piece[0] == '.'
}

/// Whether `piece` is `..`.
pub open spec fn is_dot_dot(piece: Seq<char>) -> bool {
    piece.len() == 2 && piece[0] == '.' && piece[1] == '.'
}

/// The final component of a path: the last of the pieces between its `/`
/// that is neither empty nor `.`; empty where there is no such piece.
pub open spec fn final_component(path: Seq<char>) -> Seq<char>
    decreases path.len(),
{
    let start = piece_start(path);
    let piece = path.subrange(start, path.len() as int);
    if piece.len() == 0 || is_dot(piece) {
        if 0 < start <= path.len() {
            final_component(path.take(start - 1))
        } else {
            Seq::empty()
        }
    } else {
        piece
    }
}

/// The index of the last `.` of `s`, or -1 where `s` has none.
pub open spec fn last_dot(s: Seq<char>) -> int
    decreases s.len(),
{
    if s.len() == 0 {
        -1
    } else if s.last() == '.' {
        s.len() - 1
    } else {
        last_dot(s.drop_last())
    }
}

/// The extension of a path: what follows the last `.` of its final component.
/// There is none where the path has no final component, or that is `..`, or
/// it has no `.`, or its only `.` is its first character.
pub open spec fn extension_of(path: Seq<char>) -> Option<Seq<char>> {
    let name = final_component(path);
    let dot = last_dot(name);
    if is_dot_dot(name) || dot <= 0 {
        None
    } else {
        Some(name.subrange(dot + 1, name.len() as int))
    }
}

/// The extension a stored name gets: that of the uploaded name, or `jpg`.
pub open spec fn extension_or_default(original: Seq<char>) -> Seq<char> {
    match extension_of(original) {
        Some(ext) => ext,
        None => "jpg"@,
    }
}

/// The stored name made of `token` for a file uploaded as `original`.
pub open spec fn stored_name(token: Seq<char>, original: Seq<char>) -> Seq<char> {
    token + seq!['.'] + extension_or_default(original)
}

/// Whether `c` is a decimal digit or one of the letters `a` to `f`.
pub open spec fn is_lower_hex(c: char) -> bool {
    ('0' <= c && c <= '9') || ('a' <= c && c <= 'f')
}

/// The shape of a token: 36 characters, hyphens after the 8th, 12th, 16th and
/// 20th digit, lower-case hexadecimal digits everywhere else.
pub open spec fn is_token(t: Seq<char>) -> bool {
    &&& t.len() == 36
    &&& forall|i: int|
        0 <= i < 36 ==> if i == 8 || i == 13 || i == 18 || i == 23 {
            #[trigger] t[i] == '-'
        } else {
            is_lower_hex(t[i])
        }
}

/// `piece_start` lies within the sequence, and no `/` follows it.
pub proof fn lemma_piece_start(s: Seq<char>)
    ensures
        0 <= piece_start(s) <= s.len(),
        piece_start(s) > 0 ==> s[piece_start(s) - 1] == '/',
        forall|i: int| piece_start(s) <= i < s.len() ==> s[i] != '/',
{
    lemma_last_piece_start(s, '/');
}

/// `last_dot` is the index of a `.`, or -1, and no `.` follows it.
pub proof fn lemma_last_dot(s: Seq<char>)
    ensures
        -1 <= last_dot(s) < s.len(),
        last_dot(s) >= 0 ==> s[last_dot(s)] == '.',
        forall|i: int| last_dot(s) < i < s.len() ==> s[i] != '.',
    decreases s.len(),
{
    if s.len() > 0 && s.last() != '.' {
        let t = s.drop_last();
        lemma_last_dot(t);
        assert forall|i: int| last_dot(s) < i < s.len() implies s[i] != '.' by {
            if i < t.len() {
                assert(s[i] == t[i]);
            }
        }
    }
}

/// The final component of a path holds no `/`.
pub proof fn lemma_final_component_plain(path: Seq<char>)
    ensures
        free_of(final_component(path), '/'),
    decreases path.len(),
{
    lemma_piece_start(path);
    let start = piece_start(path);
    let piece = path.subrange(start, path.len() as int);
    if piece.len() == 0 || is_dot(piece) {
        if 0 < start <= path.len() {
            lemma_final_component_plain(path.take(start - 1));
            assert(final_component(path) == final_component(path.take(start - 1)));
        } else {
            assert(final_component(path) == Seq::<char>::empty());
        }
    } else {
        assert(final_component(path) == piece);
        assert forall|i: int| 0 <= i < piece.len() implies piece[i] != '/' by {
            assert(piece[i] == path[start + i]);
        }
    }
}

/// An extension holds neither `/` nor `.`.
pub proof fn lemma_extension_plain(path: Seq<char>)
    ensures
        extension_of(path) matches Some(ext) ==> free_of(ext, '/') && free_of(ext, '.'),
{
    let name = final_component(path);
    lemma_final_component_plain(path);
    lemma_last_dot(name);
    if let Some(ext) = extension_of(path) {
        assert forall|i: int| 0 <= i < ext.len() implies ext[i] != '/' && ext[i] != '.' by {
            assert(ext[i] == name[last_dot(name) + 1 + i]);
        }
    }
}

/// Returns the index just after the last `.` of `v[start..end]`, or `start`
/// where there is none.
fn after_last_dot(v: &Vec<char>, start: usize, end: usize) -> (d: usize)
    requires
        start <= end <= v.len(),
    ensures
        start <= d <= end,
        d - start == last_dot(v@.subrange(start as int, end as int)) + 1,
{
    let mut d: usize = end;
    while d > start && v[d - 1] != '.'
        invariant
            start <= d <= end <= v.len(),
            last_dot(v@.subrange(start as int, end as int)) == last_dot(
                v@.subrange(start as int, d as int),
            ),
        decreases d,
    {
        assert(v@.subrange(start as int, d as int).drop_last() == v@.subrange(
            start as int,
            d - 1,
        ));
        d -= 1;
    }
    d
}

/// A text without `/` that is neither empty nor `.` is its own final
/// component.
pub proof fn lemma_plain_name_is_component(name: Seq<char>)
    requires
        free_of(name, '/'),
        name.len() > 0,
        !is_dot(name),
    ensures
        final_component(name) == name,
{
    lemma_piece_start_at(name);
    assert(name.subrange(0, name.len() as int) == name);
}

/// A text without `/` has its last piece at its start.
pub proof fn lemma_piece_start_at(name: Seq<char>)
    requires
        free_of(name, '/'),
    ensures
        piece_start(name) == 0,
    decreases name.len(),
{
    if name.len() > 0 {
        let rest = name.drop_last();
        assert forall|i: int| 0 <= i < rest.len() implies rest[i] != '/' by {
            assert(rest[i] == name[i]);
        }
        lemma_piece_start_at(rest);
    }
}

/// Where a `.` stands at `at` and none follows, `at` is the last `.`.
pub proof fn lemma_last_dot_at(s: Seq<char>, at: int)
    requires
        0 <= at < s.len(),
        s[at] == '.',
        forall|i: int| at < i < s.len() ==> s[i] != '.',
    ensures
        last_dot(s) == at,
    decreases s.len(),
{
    if at < s.len() - 1 {
        lemma_last_dot_at(s.drop_last(), at);
    }
}

/// A stored name is a plain file name that keeps the extension it was made
/// with: it holds no `/`, so it names a file in the directory it is put in,
/// and its extension is that of the uploaded name, or `jpg`.
pub proof fn lemma_stored_name(token: Seq<char>, original: Seq<char>)
    requires
        is_token(token),
    ensures
        free_of(stored_name(token, original), '/'),
        stored_name(token, original).len() >= 37,
        extension_of(stored_name(token, original)) == Some(extension_or_default(original)),
{
    reveal_strlit("jpg");
    let ext = extension_or_default(original);
    let name = stored_name(token, original);
    lemma_extension_plain(original);
    assert(free_of(ext, '/') && free_of(ext, '.'));
    assert forall|i: int| 0 <= i < 36 implies token[i] != '/' && token[i] != '.' by {
        if i == 8 || i == 13 || i == 18 || i == 23 {
            assert(token[i] == '-');
        } else {
            assert(is_lower_hex(token[i]));
        }
    }
    assert forall|i: int| 0 <= i < name.len() implies name[i] != '/' by {
        if i < 36 {
            assert(name[i] == token[i]);
        } else if i > 36 {
            assert(name[i] == ext[i - 37]);
        }
    }
    lemma_plain_name_is_component(name);
    assert forall|i: int| 36 < i < name.len() implies name[i] != '.' by {
        assert(name[i] == ext[i - 37]);
    }
    assert(name[36] == '.');
    lemma_last_dot_at(name, 36);
    assert(name.subrange(37, name.len() as int) =~= ext);
}

/// Finds the final component of `v`: returns `(start, end)` such that it is
/// `v[start..end]`.
fn locate_final_component(v: &Vec<char>) -> (r: (usize, usize))
    ensures
        r.0 <= r.1 <= v.len(),
        final_component(v@) == v@.subrange(r.0 as int, r.1 as int),
{
    let mut end: usize = v.len();
    let mut start: usize = piece_start_before(v, end, '/');
    assert(v@.take(end as int) == v@);
    while start > 0 && (end == start || (end - start == 1 && v[start] == '.'))
        invariant
            start <= end <= v.len(),
            start == piece_start(v@.take(end as int)),
            final_component(v@) == final_component(v@.take(end as int)),
        decreases end,
    {
        assert(v@.take(end as int).take(start - 1) == v@.take(start - 1));
        end = start - 1;
        start = piece_start_before(v, end, '/');
    }
    let ghost s = v@.take(end as int);
    assert(s.subrange(start as int, s.len() as int) == v@.subrange(start as int, end as int));
    if end == start || (end - start == 1 && v[start] == '.') {
        assert(final_component(s) == Seq::<char>::empty());
        assert(v@.subrange(0, 0) == Seq::<char>::empty());
        (0, 0)
    } else {
        (start, end)
    }
}

/// The extension of `path`, if it has one.
///
/// A path is cut at `/`; pieces that are empty or `.` do not count. The
/// extension is looked for in the last piece that counts.
pub fn file_extension(path: &str) -> (ext: Option<String>)
    ensures
        match ext {
            Some(e) => extension_of(path@) == Some(e@),
            None => extension_of(path@) is None,
        },
{
    let v = chars_of(path);
    let (start, end) = locate_final_component(&v);
    let ghost name = v@.subrange(start as int, end as int);
    if end - start == 2 && v[start] == '.' && v[start + 1] == '.' {
        return None;
    }
    let d = after_last_dot(&v, start, end);
    if d - start <= 1 {
        return None;
    }
    let ext = string_of(&v, d, end);
    assert(v@.subrange(d as int, end as int) == name.subrange(d - start, name.len() as int));
    Some(ext)
}

/// The stored name made of `token` for a file that was uploaded as
/// `original`: the token, a dot, and the extension of `original` or `jpg`.
pub fn filename_with_token(token: &str, original: &str) -> (name: String)
    ensures
        name@ == stored_name(token@, original@),
{
    let mut name = String::from_str(token);
    name.append(".");
    proof {
        reveal_strlit(".");
        assert("."@ =~= seq!['.']);
    }
    match file_extension(original) {
        Some(ext) => {
            name.append(ext.as_str());
        },
        None => {
            name.append("jpg");
        },
    }
    name
}

/// `uuid::Uuid::new_v4`, written out by the `Display` of `Uuid`: a random
/// version 4 identifier in its hyphenated lower-case form. Only the shape of
/// the text is claimed; which identifier comes back is left open.
#[verifier::external_body]
fn random_token() -> (token: String)
    ensures
        is_token(token@),
{
    uuid::Uuid::new_v4().to_string()
}

/// Makes the name under which a file uploaded as `original_filename` is
/// stored: a fresh random token with the extension of the uploaded name.
///
/// Two calls give different names except where two random tokens of 122 bits
/// agree.
pub fn generate_unique_filename(original_filename: &str) -> (name: String)
    ensures
        exists|token: Seq<char>| #[trigger]
            is_token(token) && name@ == stored_name(token, original_filename@),
        free_of(name@, '/'),
        extension_of(name@) == Some(extension_or_default(original_filename@)),
{
    let token = random_token();
    proof {
        lemma_stored_name(token@, original_filename@);
    }
    filename_with_token(token.as_str(), original_filename)
}

} // verus!
