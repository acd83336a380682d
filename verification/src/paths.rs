//! Path texts: joining, splitting into components, file names and extensions,
//! with the meaning that std's `Path` gives them on Unix.

use vstd::prelude::*;
use crate::text::{chars_of, string_of, push_char, concat};
use vstd::string::StrSliceExecFns;

verus! {

/// The separator between path components.
pub const SEPARATOR: char = '/';

/// `base` joined with `part` the way `Path::join` does on Unix: an absolute
/// `part` replaces `base`; otherwise a separator is put between them unless
/// `base` is empty or already ends with one.
pub open spec fn joined(base: Seq<char>, part: Seq<char>) -> Seq<char> {
    if part.len() > 0 && part[0] == SEPARATOR {
        part
    } else if base.len() > 0 && base.last() != SEPARATOR {
        base.push(SEPARATOR) + part
    } else {
        base + part
    }
}

/// Joins two path texts (see [`joined`]).
pub fn path_join(base: &str, part: &str) -> (r: String)
    ensures
        r@ == joined(base@, part@),
{
    let b = chars_of(base);
    let p = chars_of(part);
    if p.len() > 0 && p[0] == SEPARATOR {
        return string_of(p.as_slice());
    }
    let mut r = string_of(b.as_slice());
    if b.len() > 0 && b[b.len() - 1] != SEPARATOR {
        push_char(&mut r, SEPARATOR);
    }
    let out = concat(r.as_str(), part);
    out
}

/// The separator between path components, as a byte.
pub const SEPARATOR_BYTE: u8 = 0x2fu8;

/// Path bytes joined the way `Path::join` does on Unix (see [`joined`]);
/// paths held as bytes need not be valid UTF-8.
pub open spec fn joined_bytes(base: Seq<u8>, part: Seq<u8>) -> Seq<u8> {
    if part.len() > 0 && part[0] == SEPARATOR_BYTE {
        part
    } else if base.len() > 0 && base.last() != SEPARATOR_BYTE {
        base.push(SEPARATOR_BYTE) + part
    } else {
        base + part
    }
}

/// The UTF-8 bytes of a text.
pub open spec fn utf8(s: Seq<char>) -> Seq<u8> {
    vstd::utf8::encode_utf8(s)
}

/// The UTF-8 bytes of a text, as a vector.
pub fn bytes_of(s: &str) -> (r: Vec<u8>)
    ensures
        r@ == utf8(s@),
{
    s.as_bytes_vec()
}

/// Joins a path held as bytes with a component given as text.
pub fn join_text(base: &[u8], part: &str) -> (r: Vec<u8>)
    ensures
        r@ == joined_bytes(base@, utf8(part@)),
{
    let p = bytes_of(part);
    path_join_bytes(base, p.as_slice())
}

/// Joins two paths held as bytes (see [`joined_bytes`]).
pub fn path_join_bytes(base: &[u8], part: &[u8]) -> (r: Vec<u8>)
    ensures
        r@ == joined_bytes(base@, part@),
{
    if part.len() > 0 && part[0] == SEPARATOR_BYTE {
        return vstd::slice::slice_to_vec(part);
    }
    let mut r = vstd::slice::slice_to_vec(base);
    if base.len() > 0 && base[base.len() - 1] != SEPARATOR_BYTE {
        r.push(SEPARATOR_BYTE);
    }
    let ghost start = r@;
    for i in 0..part.len()
        invariant
            r@ == start + part@.take(i as int),
    {
        r.push(part[i]);
        assert(part@.take(i + 1) =~= part@.take(i as int).push(part@[i as int]));
        assert(r@ =~= start + part@.take(i + 1));
    }
    assert(part@.take(part@.len() as int) =~= part@);
    r
}

/// The pieces of `s` between occurrences of `sep`, as `str::split` yields
/// them: always at least one piece, empty pieces included.
pub open spec fn split_on(s: Seq<char>, sep: char) -> Seq<Seq<char>>
    decreases s.len(),
{
    if s.len() == 0 {
        seq![Seq::<char>::empty()]
    } else {
        let prev = split_on(s.drop_last(), sep);
        if s.last() == sep {
            prev.push(Seq::<char>::empty())
        } else {
            prev.update(prev.len() - 1, prev.last().push(s.last()))
        }
    }
}

/// There is always at least one piece.
pub proof fn lemma_split_on_nonempty(s: Seq<char>, sep: char)
    ensures
        split_on(s, sep).len() >= 1,
    decreases s.len(),
{
    if s.len() > 0 {
        lemma_split_on_nonempty(s.drop_last(), sep);
    }
}

/// A text without `sep` is one piece.
pub proof fn lemma_split_on_single(s: Seq<char>, sep: char)
    requires
        !s.contains(sep),
    ensures
        split_on(s, sep) == seq![s],
    decreases s.len(),
{
    if s.len() == 0 {
        assert(s =~= Seq::<char>::empty());
        assert(split_on(s, sep) =~= seq![s]);
    } else {
        let init = s.drop_last();
        assert(!init.contains(sep)) by {
            if init.contains(sep) {
                let k = choose|k: int| 0 <= k < init.len() && init[k] == sep;
                assert(s[k] == sep);
            }
        }
        lemma_split_on_single(init, sep);
        assert(s.last() != sep) by {
            assert(s[s.len() - 1] == s.last());
        }
        assert(init.push(s.last()) =~= s);
        let prev = split_on(init, sep);
        assert(prev.last() == init);
        assert(prev.update(0, init.push(s.last())) =~= seq![s]);
        assert(split_on(s, sep) == prev.update(prev.len() - 1, prev.last().push(s.last())));
    }
}

/// Appending a text without `sep` extends the last piece.
pub proof fn lemma_split_on_extend(p: Seq<char>, b: Seq<char>, sep: char)
    requires
        !b.contains(sep),
    ensures
        split_on(p + b, sep) == split_on(p, sep).update(
            split_on(p, sep).len() - 1,
            split_on(p, sep).last() + b,
        ),
    decreases b.len(),
{
    lemma_split_on_nonempty(p, sep);
    if b.len() == 0 {
        assert(p + b =~= p);
        assert(split_on(p, sep).last() + b =~= split_on(p, sep).last());
        assert(split_on(p, sep).update(split_on(p, sep).len() - 1, split_on(p, sep).last() + b)
            =~= split_on(p, sep));
    } else {
        let bi = b.drop_last();
        assert(!bi.contains(sep)) by {
            if bi.contains(sep) {
                let k = choose|k: int| 0 <= k < bi.len() && bi[k] == sep;
                assert(b[k] == sep);
            }
        }
        lemma_split_on_extend(p, bi, sep);
        assert((p + b).drop_last() =~= p + bi);
        assert((p + b).last() == b.last());
        assert(b.last() != sep) by {
            assert(b[b.len() - 1] == b.last());
        }
        assert(bi.push(b.last()) =~= b);
        let sp = split_on(p, sep);
        assert((sp.last() + bi).push(b.last()) =~= sp.last() + b);
        assert(split_on(p + b, sep) =~= sp.update(sp.len() - 1, sp.last() + b));
    }
}

/// The views of a list of character vectors.
pub open spec fn char_vecs_view(v: Seq<Vec<char>>) -> Seq<Seq<char>> {
    v.map_values(|p: Vec<char>| p@)
}

/// The views of a list of strings.
pub open spec fn strings_view(v: Seq<String>) -> Seq<Seq<char>> {
    v.map_values(|p: String| p@)
}

/// Splits a character sequence at every `sep`.
pub fn split_chars(cs: &Vec<char>, sep: char) -> (parts: Vec<Vec<char>>)
    ensures
        char_vecs_view(parts@) == split_on(cs@, sep),
{
    let mut parts: Vec<Vec<char>> = Vec::new();
    let mut cur: Vec<char> = Vec::new();
    assert(cs@.take(0) =~= Seq::<char>::empty());
    assert(char_vecs_view(parts@).push(cur@) =~= split_on(cs@.take(0), sep));
    for i in 0..cs.len()
        invariant
            char_vecs_view(parts@).push(cur@) == split_on(cs@.take(i as int), sep),
    {
        let c = cs[i];
        let ghost before = cs@.take(i as int);
        let ghost after = cs@.take(i + 1);
        assert(after.drop_last() =~= before);
        assert(after.last() == c);
        if c == sep {
            parts.push(cur);
            cur = Vec::new();
            assert(char_vecs_view(parts@).push(cur@) =~= split_on(before, sep).push(Seq::<char>::empty()));
        } else {
            let ghost old_cur = cur@;
            cur.push(c);
            assert(char_vecs_view(parts@).push(cur@) =~= split_on(before, sep).update(
                split_on(before, sep).len() - 1,
                split_on(before, sep).last().push(c),
            ));
        }
    }
    parts.push(cur);
    assert(cs@.take(cs@.len() as int) =~= cs@);
    parts
}

/// Strings holding the given character sequences, in order.
pub fn strings_of(pieces: &Vec<Vec<char>>) -> (out: Vec<String>)
    ensures
        strings_view(out@) == char_vecs_view(pieces@),
{
    let mut out: Vec<String> = Vec::new();
    for i in 0..pieces.len()
        invariant
            out@.len() == i,
            pieces@.len() == char_vecs_view(pieces@).len(),
            strings_view(out@) == char_vecs_view(pieces@).take(i as int),
    {
        let piece = string_of(pieces[i].as_slice());
        let ghost prev = out@;
        out.push(piece);
        assert forall|k: int| 0 <= k < i + 1 implies #[trigger] strings_view(out@)[k]
            == char_vecs_view(pieces@).take(i + 1)[k] by {
            if k < i {
                assert(out@[k] == prev[k]);
                assert(strings_view(prev)[k] == char_vecs_view(pieces@).take(i as int)[k]);
            }
        }
        assert(strings_view(out@) =~= char_vecs_view(pieces@).take(i + 1));
    }
    assert(char_vecs_view(pieces@).take(pieces@.len() as int) =~= char_vecs_view(pieces@));
    out
}

/// Splits a text at every `sep`, as `str::split` does.
pub fn split_text(s: &str, sep: char) -> (parts: Vec<String>)
    ensures
        strings_view(parts@) == split_on(s@, sep),
{
    let cs = chars_of(s);
    let pieces = split_chars(&cs, sep);
    strings_of(&pieces)
}

/// A component that names something: neither empty (a repeated or trailing
/// separator) nor the current directory `.`.
pub open spec fn is_named_component(c: Seq<char>) -> bool {
    c.len() > 0 && c != seq!['.']
}

/// The last naming component of a list of pieces, if any.
pub open spec fn last_named(parts: Seq<Seq<char>>) -> Option<Seq<char>>
    decreases parts.len(),
{
    if parts.len() == 0 {
        None
    } else if is_named_component(parts.last()) {
        Some(parts.last())
    } else {
        last_named(parts.drop_last())
    }
}

/// The final component of a path, as `Path::file_name` gives it: `None` for
/// an empty path, the root, `.` alone, or a path that ends in `..`.
pub open spec fn file_name_of(path: Seq<char>) -> Option<Seq<char>> {
    match last_named(split_on(path, SEPARATOR)) {
        Some(c) => if c == seq!['.', '.'] { None } else { Some(c) },
        None => None,
    }
}

fn is_named(c: &Vec<char>) -> (r: bool)
    ensures
        r == is_named_component(c@),
{
    if c.len() == 0 {
        false
    } else if c.len() == 1 && c[0] == '.' {
        assert(c@ =~= seq!['.']);
        false
    } else {
        assert(c@.len() != 1 ==> c@ != seq!['.']);
        true
    }
}

/// The file name of a path (see [`file_name_of`]).
pub fn file_name(path: &str) -> (r: Option<String>)
    ensures
        match r {
            Some(n) => file_name_of(path@) == Some(n@),
            None => file_name_of(path@) is None,
        },
{
    let cs = chars_of(path);
    let parts = split_chars(&cs, SEPARATOR);
    let ghost all = char_vecs_view(parts@);
    let mut j = parts.len();
    assert(all.take(j as int) =~= all);
    while j > 0
        invariant
            all == char_vecs_view(parts@),
            all == split_on(path@, SEPARATOR),
            j <= parts@.len(),
            last_named(all) == last_named(all.take(j as int)),
        decreases j,
    {
        let ghost t = all.take(j as int);
        assert(t.last() == parts@[j - 1]@);
        assert(t.drop_last() =~= all.take(j - 1));
        if is_named(&parts[j - 1]) {
            let name = &parts[j - 1];
            assert(last_named(t) == Some(name@));
            assert(last_named(all) == Some(name@));
            assert(last_named(split_on(path@, SEPARATOR)) == Some(name@));
            if name.len() == 2 && name[0] == '.' && name[1] == '.' {
                assert(name@ =~= seq!['.', '.']);
                return None;
            }
            assert(name@ != seq!['.', '.']) by {
                if name@ == seq!['.', '.'] {
                    assert(name@.len() == 2 && name@[0] == '.' && name@[1] == '.');
                }
            }
            return Some(string_of(name.as_slice()));
        }
        j = j - 1;
    }
    assert(all.take(0) =~= Seq::<Seq<char>>::empty());
    None
}

/// The position of the last `c` in `s`, or -1.
pub open spec fn last_index_of(s: Seq<char>, c: char) -> int
    decreases s.len(),
{
    if s.len() == 0 {
        -1
    } else if s.last() == c {
        s.len() - 1
    } else {
        last_index_of(s.drop_last(), c)
    }
}

/// `last_index_of` is -1 or a position holding `c` with none after it.
pub proof fn lemma_last_index_of(s: Seq<char>, c: char)
    ensures
        -1 <= last_index_of(s, c) < s.len(),
        last_index_of(s, c) >= 0 ==> s[last_index_of(s, c)] == c,
        forall|k: int| last_index_of(s, c) < k < s.len() ==> s[k] != c,
    decreases s.len(),
{
    if s.len() > 0 && s.last() != c {
        lemma_last_index_of(s.drop_last(), c);
        assert forall|k: int| last_index_of(s, c) < k < s.len() implies s[k] != c by {
            if k < s.len() - 1 {
                assert(s.drop_last()[k] == s[k]);
            }
        }
    }
}

/// The extension of a file name as `Path::extension` gives it: the text
/// after the last `.`, provided something precedes that dot.
pub open spec fn name_extension(name: Seq<char>) -> Option<Seq<char>> {
    let k = last_index_of(name, '.');
    if k <= 0 {
        None
    } else {
        Some(name.subrange(k + 1, name.len() as int))
    }
}

/// The extension of a path: that of its file name.
pub open spec fn extension_of(path: Seq<char>) -> Option<Seq<char>> {
    match file_name_of(path) {
        Some(n) => name_extension(n),
        None => None,
    }
}

fn last_dot(cs: &Vec<char>) -> (k: Option<usize>)
    ensures
        match k {
            Some(k) => k as int == last_index_of(cs@, '.'),
            None => last_index_of(cs@, '.') == -1,
        },
{
    let mut j = cs.len();
    assert(cs@.take(j as int) =~= cs@);
    while j > 0
        invariant
            j <= cs@.len(),
            last_index_of(cs@, '.') == last_index_of(cs@.take(j as int), '.'),
        decreases j,
    {
        assert(cs@.take(j as int).drop_last() =~= cs@.take(j - 1));
        if cs[j - 1] == '.' {
            return Some(j - 1);
        }
        j = j - 1;
    }
    None
}

/// The extension of a path (see [`extension_of`]).
pub fn extension(path: &str) -> (r: Option<String>)
    ensures
        match r {
            Some(e) => extension_of(path@) == Some(e@),
            None => extension_of(path@) is None,
        },
{
    match file_name(path) {
        None => None,
        Some(name) => {
            let cs = chars_of(name.as_str());
            match last_dot(&cs) {
                None => None,
                Some(k) => {
                    if k == 0 {
                        None
                    } else {
                        proof { lemma_last_index_of(cs@, '.'); }
                        assert(k < cs.len());
                        let mut tail: Vec<char> = Vec::new();
                        let mut i = k + 1;
                        while i < cs.len()
                            invariant
                                k < cs@.len(),
                                k + 1 <= i <= cs@.len(),
                                tail@ == cs@.subrange(k + 1, i as int),
                            decreases cs@.len() - i,
                        {
                            tail.push(cs[i]);
                            assert(tail@ =~= cs@.subrange(k + 1, i + 1));
                            i = i + 1;
                        }
                        Some(string_of(tail.as_slice()))
                    }
                }
            }
        }
    }
}

/// Whether a path names a Markdown page: its extension is `md` or `mdx`.
pub open spec fn is_markdown_path(path: Seq<char>) -> bool {
    extension_of(path) == Some(seq!['m', 'd']) || extension_of(path) == Some(seq!['m', 'd', 'x'])
}

/// Whether a path's extension is `md` or `mdx`.
pub fn has_markdown_extension(path: &str) -> (r: bool)
    ensures
        r == is_markdown_path(path@),
{
    match extension(path) {
        None => false,
        Some(e) => {
            let cs = chars_of(e.as_str());
            if cs.len() == 2 && cs[0] == 'm' && cs[1] == 'd' {
                assert(cs@ =~= seq!['m', 'd']);
                true
            } else if cs.len() == 3 && cs[0] == 'm' && cs[1] == 'd' && cs[2] == 'x' {
                assert(cs@ =~= seq!['m', 'd', 'x']);
                true
            } else {
                assert(cs@ != seq!['m', 'd']) by {
                    if cs@ == seq!['m', 'd'] { assert(cs@.len() == 2 && cs@[0] == 'm' && cs@[1] == 'd'); }
                }
                assert(cs@ != seq!['m', 'd', 'x']) by {
                    if cs@ == seq!['m', 'd', 'x'] { assert(cs@.len() == 3 && cs@[0] == 'm' && cs@[1] == 'd' && cs@[2] == 'x'); }
                }
                false
            }
        }
    }
}

} // verus!
