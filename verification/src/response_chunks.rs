//! Google's batchexecute answers open with the `)]}'` guard and then hold
//! several JSON chunks, each after a line that gives its length. This finds
//! the chunks and merges them into one top-level array.

use vstd::prelude::*;
use crate::outside::{json_parses, json_valid, json_top_level, parse_top_level, JsonTopLevel};
use crate::text::{split_on, split_chars, chars_of, all_digits, is_digit, texts, lemma_split_nonempty, join, join_strings, push_str, push_char};
use crate::client::{trim_start_ws, trim_end_ws, trim_span, string_of};

verus! {

/// The index of the first `c` in `s`, if any.
pub open spec fn first_index(s: Seq<char>, c: char) -> Option<int>
    decreases s.len(),
{
    if s.len() == 0 {
        None
    } else if s[0] == c {
        Some(0)
    } else {
        match first_index(s.drop_first(), c) {
            Some(i) => Some(i + 1),
            None => None,
        }
    }
}

proof fn lemma_first_index(s: Seq<char>, c: char, i: int)
    requires
        0 <= i <= s.len(),
        forall|k: int| 0 <= k < i ==> s[k] != c,
        i < s.len() ==> s[i] == c,
    ensures
        first_index(s, c) == (if i < s.len() { Some(i) } else { None::<int> }),
    decreases i,
{
    if i > 0 {
        let t = s.drop_first();
        assert forall|k: int| 0 <= k < i - 1 implies t[k] != c by {
            assert(t[k] == s[k + 1]);
        }
        if i < s.len() {
            assert(t[i - 1] == s[i]);
        }
        lemma_first_index(t, c, i - 1);
    }
}

/// A line without the `\r` of a `\r\n` ending.
pub open spec fn strip_cr(l: Seq<char>) -> Seq<char> {
    if l.len() > 0 && l.last() == '\r' {
        l.drop_last()
    } else {
        l
    }
}

/// The lines of a text as `str::lines` gives them: split at `\n`, each line
/// ended by `\n` without a `\r` before it, and no empty last line after a
/// final `\n`.
pub open spec fn lines_of(s: Seq<char>) -> Seq<Seq<char>> {
    let p = split_on(s, '\n');
    let body = p.drop_last().map_values(|l: Seq<char>| strip_cr(l));
    if p.last().len() == 0 {
        body
    } else {
        body.push(p.last())
    }
}

/// A line that only gives a chunk's length: digits, with white space around.
pub open spec fn length_line(l: Seq<char>) -> bool {
    all_digits(trim_end_ws(trim_start_ws(l)))
}

/// The pending text with one more line added.
pub open spec fn joined(buffer: Seq<char>, line: Seq<char>) -> Seq<char> {
    if buffer.len() == 0 {
        line
    } else {
        buffer + "\n"@ + line
    }
}

/// The chunks found in `lines`, given the text still pending: length lines
/// are skipped, other lines are added to the pending text, and whenever it
/// is one JSON value it is a chunk and nothing is pending any more. What is
/// pending at the end is dropped.
pub open spec fn chunks_from(lines: Seq<Seq<char>>, buffer: Seq<char>) -> Seq<Seq<char>>
    decreases lines.len(),
{
    if lines.len() == 0 {
        Seq::empty()
    } else if length_line(lines[0]) {
        chunks_from(lines.drop_first(), buffer)
    } else {
        let b = joined(buffer, lines[0]);
        if json_valid(b) {
            seq![b] + chunks_from(lines.drop_first(), Seq::empty())
        } else {
            chunks_from(lines.drop_first(), b)
        }
    }
}

fn slice_chars(cs: &Vec<char>, from: usize, to: usize) -> (r: Vec<char>)
    requires
        from <= to <= cs@.len(),
    ensures
        r@ == cs@.subrange(from as int, to as int),
{
    let mut out: Vec<char> = Vec::new();
    let mut i: usize = from;
    while i < to
        invariant
            from <= i <= to <= cs@.len(),
            out@ == cs@.subrange(from as int, i as int),
        decreases to - i,
    {
        out.push(cs[i]);
        i = i + 1;
        assert(out@ =~= cs@.subrange(from as int, i as int));
    }
    out
}

/// The lines of a text, as `lines_of` says.
pub fn text_lines(s: &Vec<char>) -> (r: Vec<Vec<char>>)
    ensures
        r@.map_values(|l: Vec<char>| l@) == lines_of(s@),
{
    let pieces = split_chars(s, '\n');
    let ghost pv = pieces@.map_values(|p: Vec<char>| p@);
    proof {
        lemma_split_nonempty(s@, '\n');
    }
    let n = pieces.len();
    let mut out: Vec<Vec<char>> = Vec::new();
    let mut i: usize = 0;
    while i + 1 < n
        invariant
            n == pieces@.len(),
            n >= 1,
            pv == split_on(s@, '\n'),
            pv == pieces@.map_values(|p: Vec<char>| p@),
            i + 1 <= n,
            out@.map_values(|l: Vec<char>| l@) == pv.take(i as int).map_values(|l: Seq<char>| strip_cr(l)),
        decreases n - i,
    {
        let p = &pieces[i];
        assert(pv[i as int] == p@);
        let l = if p.len() > 0 && p[p.len() - 1] == '\r' {
            slice_chars(p, 0, p.len() - 1)
        } else {
            slice_chars(p, 0, p.len())
        };
        assert(p@.subrange(0, p@.len() as int) =~= p@);
        assert(p@.len() > 0 ==> p@.subrange(0, p@.len() - 1) =~= p@.drop_last());
        let ghost before = out@.map_values(|l: Vec<char>| l@);
        out.push(l);
        assert(out@.map_values(|l: Vec<char>| l@) =~= before.push(strip_cr(pv[i as int])));
        assert(pv.take(i + 1).map_values(|l: Seq<char>| strip_cr(l)) =~= pv.take(i as int).map_values(
            |l: Seq<char>| strip_cr(l),
        ).push(strip_cr(pv[i as int])));
        i = i + 1;
    }
    assert(pv.take(i as int) =~= pv.drop_last());
    let last = &pieces[n - 1];
    assert(pv.last() == last@);
    if last.len() > 0 {
        let ghost before = out@.map_values(|l: Vec<char>| l@);
        let copy = slice_chars(last, 0, last.len());
        assert(last@.subrange(0, last@.len() as int) =~= last@);
        out.push(copy);
        assert(out@.map_values(|l: Vec<char>| l@) =~= before.push(last@));
    }
    out
}

fn is_length_line(l: &Vec<char>) -> (r: bool)
    ensures
        r == length_line(l@),
{
    let (a, b) = trim_span(l, true, true);
    let ghost trimmed = l@.subrange(a as int, b as int);
    assert(trimmed == trim_end_ws(trim_start_ws(l@)));
    let mut i: usize = a;
    while i < b
        invariant
            a <= i <= b <= l@.len(),
            trimmed == l@.subrange(a as int, b as int),
            trimmed == trim_end_ws(trim_start_ws(l@)),
            forall|k: int| a <= k < i ==> is_digit(#[trigger] l@[k]),
        decreases b - i,
    {
        if !('0' <= l[i] && l[i] <= '9') {
            assert(l@.subrange(a as int, b as int)[i - a] == l@[i as int]);
            assert(!is_digit(trimmed[i - a]));
            assert(!all_digits(trimmed));
            return false;
        }
        i = i + 1;
    }
    assert forall|k: int| 0 <= k < l@.subrange(a as int, b as int).len() implies is_digit(
        #[trigger] l@.subrange(a as int, b as int)[k],
    ) by {
        assert(l@.subrange(a as int, b as int)[k] == l@[a + k]);
    }
    true
}

/// The text from the first `[` on and the JSON chunks in it, or nothing
/// when the text has no `[`.
pub fn json_chunks(text: &str) -> (r: Option<(String, Vec<String>)>)
    ensures
        match first_index(text@, '[') {
            None => r is None,
            Some(p) => r matches Some((body, chunks)) && body@ == text@.skip(p) && texts(chunks@)
                == chunks_from(lines_of(text@.skip(p)), Seq::empty()),
        },
{
    let cs = chars_of(text);
    let mut p: usize = 0;
    while p < cs.len() && cs[p] != '['
        invariant
            p <= cs@.len(),
            cs@ == text@,
            forall|k: int| 0 <= k < p ==> cs@[k] != '[',
        decreases cs@.len() - p,
    {
        p = p + 1;
    }
    proof {
        lemma_first_index(cs@, '[', p as int);
    }
    if p == cs.len() {
        return None;
    }
    let rest = slice_chars(&cs, p, cs.len());
    assert(rest@ =~= text@.skip(p as int));
    let body = string_of(&cs, p, cs.len());
    let lines = text_lines(&rest);
    let ghost lv = lines@.map_values(|l: Vec<char>| l@);
    let mut out: Vec<String> = Vec::new();
    let mut buf: Vec<char> = Vec::new();
    let mut i: usize = 0;
    assert(lv.skip(0) =~= lv);
    assert(texts(out@) =~= Seq::<Seq<char>>::empty());
    while i < lines.len()
        invariant
            i <= lines@.len(),
            lv == lines@.map_values(|l: Vec<char>| l@),
            lv == lines_of(rest@),
            texts(out@) + chunks_from(lv.skip(i as int), buf@) == chunks_from(lv, Seq::empty()),
        decreases lines@.len() - i,
    {
        let line = &lines[i];
        assert(lv[i as int] == line@);
        assert(lv.skip(i as int).drop_first() =~= lv.skip(i + 1));
        assert(lv.skip(i as int)[0] == line@);
        if !is_length_line(line) {
            let ghost old_buf = buf@;
            if buf.len() == 0 {
                buf = slice_chars(line, 0, line.len());
                assert(line@.subrange(0, line@.len() as int) =~= line@);
            } else {
                buf.push('\n');
                let mut k: usize = 0;
                let ghost with_nl = buf@;
                while k < line.len()
                    invariant
                        k <= line@.len(),
                        buf@ == with_nl + line@.take(k as int),
                    decreases line@.len() - k,
                {
                    buf.push(line[k]);
                    k = k + 1;
                    assert(buf@ =~= with_nl + line@.take(k as int));
                }
                assert(line@.take(k as int) =~= line@);
                assert(with_nl =~= old_buf + "\n"@) by {
                    reveal_strlit("\n");
                }
            }
            assert(buf@ == joined(old_buf, line@));
            let candidate = string_of(&buf, 0, buf.len());
            assert(buf@.subrange(0, buf@.len() as int) =~= buf@);
            if json_parses(candidate.as_str()) {
                let ghost before = texts(out@);
                out.push(candidate);
                assert(texts(out@) =~= before.push(buf@));
                assert(before.push(buf@) + chunks_from(lv.skip(i + 1), Seq::empty()) =~= before + (seq![buf@]
                    + chunks_from(lv.skip(i + 1), Seq::empty())));
                buf = Vec::new();
            }
        }
        i = i + 1;
    }
    Some((body, out))
}

/// The top-level items of the chunks, in order: the items of an array
/// chunk, and any other chunk as one item, each as compact JSON text.
pub open spec fn chunk_items(chunks: Seq<Seq<char>>) -> Seq<Seq<char>>
    decreases chunks.len(),
{
    if chunks.len() == 0 {
        Seq::empty()
    } else {
        chunk_items(chunks.drop_last()) + match json_top_level(chunks.last()) {
            Some((true, items)) => items,
            Some((false, whole)) => seq![whole[0]],
            None => Seq::empty(),
        }
    }
}

/// One JSON array written out of item texts: `[`, the items with `,`
/// between them, `]`.
pub open spec fn array_text(items: Seq<Seq<char>>) -> Seq<char> {
    seq!['['] + join(items, seq![',']) + seq![']']
}

/// A response without its guard: unchanged when it has no `[`; else the
/// text from the first `[` on when no chunk is found there, and otherwise
/// one array of the items of all chunks.
pub open spec fn stripped(text: Seq<char>) -> Seq<char> {
    match first_index(text, '[') {
        None => text,
        Some(p) => {
            let body = text.skip(p);
            let chunks = chunks_from(lines_of(body), Seq::empty());
            if chunks.len() == 0 {
                body
            } else {
                array_text(chunk_items(chunks))
            }
        },
    }
}

/// Drops the `)]}'` guard of a batchexecute response and merges its JSON
/// chunks into one top-level array, written as JSON text.
pub fn strip_antixssi_prefix(text: &str) -> (r: String)
    ensures
        r@ == stripped(text@),
{
    let found = json_chunks(text);
    match found {
        None => {
            let mut out = String::new();
            push_str(&mut out, text);
            assert(out@ =~= text@);
            out
        },
        Some((body, chunks)) => {
            if chunks.len() == 0 {
                return body;
            }
            proof {
                let p = first_index(text@, '[')->0;
                law_chunks_are_json(lines_of(text@.skip(p)), Seq::empty());
            }
            let mut items: Vec<String> = Vec::new();
            let mut i: usize = 0;
            while i < chunks.len()
                invariant
                    i <= chunks@.len(),
                    forall|k: int| 0 <= k < chunks@.len() ==> json_valid(#[trigger] texts(chunks@)[k]),
                    texts(items@) == chunk_items(texts(chunks@).take(i as int)),
                decreases chunks@.len() - i,
            {
                let ghost t = texts(chunks@);
                assert(t.take(i + 1).drop_last() =~= t.take(i as int));
                assert(t.take(i + 1).last() == chunks@[i as int]@);
                let got = parse_top_level(chunks[i].as_str());
                match got {
                    Some(JsonTopLevel::Items(part)) => {
                        let mut j: usize = 0;
                        let ghost start = texts(items@);
                        assert(texts(part@).take(0) =~= Seq::<Seq<char>>::empty());
                        assert(start + texts(part@).take(0) =~= start);
                        while j < part.len()
                            invariant
                                j <= part@.len(),
                                texts(items@) == start + texts(part@).take(j as int),
                            decreases part@.len() - j,
                        {
                            let ghost before = texts(items@);
                            items.push(part[j].clone());
                            assert(texts(items@) =~= before.push(part@[j as int]@));
                            j = j + 1;
                            assert(texts(part@).take(j as int) =~= texts(part@).take(j - 1).push(part@[j - 1]@));
                            assert(texts(items@) =~= start + texts(part@).take(j as int));
                        }
                        assert(texts(part@).take(j as int) =~= texts(part@));
                    },
                    Some(JsonTopLevel::Whole(whole)) => {
                        let ghost before = texts(items@);
                        items.push(whole);
                        assert(texts(items@) =~= before + seq![seq![whole@][0]]);
                    },
                    None => {
                        assert(false);
                    },
                }
                i = i + 1;
            }
            assert(texts(chunks@).take(i as int) =~= texts(chunks@));
            let mut out = String::new();
            push_char(&mut out, '[');
            let mut sep = String::new();
            push_char(&mut sep, ',');
            assert(sep@ =~= seq![',']);
            let inner = join_strings(&items, sep.as_str());
            push_str(&mut out, inner.as_str());
            push_char(&mut out, ']');
            assert(out@ =~= array_text(texts(items@)));
            out
        },
    }
}

/// Every chunk found is one JSON value, so the caller can parse each.
pub proof fn law_chunks_are_json(lines: Seq<Seq<char>>, buffer: Seq<char>)
    ensures
        forall|i: int| 0 <= i < chunks_from(lines, buffer).len() ==> json_valid(#[trigger] chunks_from(lines, buffer)[i]),
    decreases lines.len(),
{
    if lines.len() > 0 {
        law_chunks_are_json(lines.drop_first(), buffer);
        law_chunks_are_json(lines.drop_first(), Seq::empty());
        law_chunks_are_json(lines.drop_first(), joined(buffer, lines[0]));
        let b = joined(buffer, lines[0]);
        if length_line(lines[0]) {
            assert(chunks_from(lines, buffer) == chunks_from(lines.drop_first(), buffer));
        } else if json_valid(b) {
            let rest = chunks_from(lines.drop_first(), Seq::empty());
            assert(chunks_from(lines, buffer) == seq![b] + rest);
            assert forall|i: int| 0 <= i < chunks_from(lines, buffer).len() implies json_valid(
                #[trigger] chunks_from(lines, buffer)[i],
            ) by {
                if i > 0 {
                    assert(chunks_from(lines, buffer)[i] == rest[i - 1]);
                } else {
                    assert(chunks_from(lines, buffer)[0] == b);
                }
            }
        } else {
            assert(chunks_from(lines, buffer) == chunks_from(lines.drop_first(), b));
        }
    }
}

/// Chunks are merged one by one: the items of two runs of chunks, one
/// after the other, are the items of the first run followed by those of
/// the second.
pub proof fn law_chunk_items_concat(a: Seq<Seq<char>>, b: Seq<Seq<char>>)
    ensures
        chunk_items(a + b) == chunk_items(a) + chunk_items(b),
    decreases b.len(),
{
    if b.len() == 0 {
        assert(a + b =~= a);
        assert(chunk_items(a) + chunk_items(b) =~= chunk_items(a));
    } else {
        law_chunk_items_concat(a, b.drop_last());
        assert((a + b).drop_last() =~= a + b.drop_last());
        assert((a + b).last() == b.last());
    }
}

} // verus!
