//! Splitting a document into overlapping windows of characters, and finding
//! its title.

use vstd::prelude::*;
use crate::text::{
    char_is_whitespace, chars_of, is_whitespace, lemma_strings_view_push,
    lemma_trim_start_is_skip, string_of, strings_view, trim, trim_end, trim_range,
};
use crate::types::{lemma_truncate_len, spec_truncate, truncate_chars};

verus! {

/// How far the window moves between two chunks.
pub open spec fn chunk_step(chunk_size: nat, overlap: nat) -> nat {
    if chunk_size > overlap {
        (chunk_size - overlap) as nat
    } else {
        chunk_size
    }
}

/// The windows of `size` characters taken from `text` at `start` and then
/// one step after the other, up to and including the first one that reaches
/// the end of the text.
pub open spec fn windows_from(text: Seq<char>, size: nat, overlap: nat, start: nat) -> Seq<
    Seq<char>,
>
    decreases text.len() - start,
{
    if start >= text.len() || size == 0 {
        Seq::empty()
    } else if start + size >= text.len() {
        seq![text.subrange(start as int, text.len() as int)]
    } else {
        seq![text.subrange(start as int, (start + size) as int)] + windows_from(
            text,
            size,
            overlap,
            start + chunk_step(size, overlap),
        )
    }
}

/// The windows after trimming, without those that trimming left empty.
pub open spec fn trimmed_nonempty(windows: Seq<Seq<char>>) -> Seq<Seq<char>>
    decreases windows.len(),
{
    if windows.len() == 0 {
        Seq::empty()
    } else {
        let rest = trimmed_nonempty(windows.drop_last());
        let t = trim(windows.last());
        if t.len() > 0 {
            rest.push(t)
        } else {
            rest
        }
    }
}

/// The chunks of `text`: nothing for an empty text, the text itself when it
/// fits in one window, else its trimmed, non-empty windows.
pub open spec fn spec_chunk_text(text: Seq<char>, chunk_size: nat, overlap: nat) -> Seq<Seq<char>> {
    if text.len() == 0 {
        Seq::empty()
    } else if text.len() <= chunk_size {
        seq![text]
    } else {
        trimmed_nonempty(windows_from(text, chunk_size, overlap, 0))
    }
}

/// Splits `text` into chunks of at most `chunk_size` characters (Unicode
/// scalar values), each window starting `chunk_size - overlap` characters
/// after the one before (`chunk_size` characters where the overlap is not
/// smaller than the window).
pub fn chunk_text(text: &str, chunk_size: usize, overlap: usize) -> (r: Vec<String>)
    requires
        chunk_size > 0,
    ensures
        strings_view(r@) == spec_chunk_text(text@, chunk_size as nat, overlap as nat),
        forall|i: int| 0 <= i < r.len() ==> r[i]@.len() <= chunk_size,
{
    let chars = chars_of(text);
    let total = chars.len();
    let mut chunks: Vec<String> = Vec::new();
    if total == 0 {
        assert(strings_view(chunks@) =~= Seq::<Seq<char>>::empty());
        return chunks;
    }
    if total <= chunk_size {
        let whole = string_of(&chars, 0, total);
        assert(chars@.subrange(0, total as int) =~= text@);
        chunks.push(whole);
        assert(strings_view(chunks@) =~= seq![text@]);
        return chunks;
    }
    let step = if chunk_size > overlap {
        chunk_size - overlap
    } else {
        chunk_size
    };
    let ghost all = windows_from(text@, chunk_size as nat, overlap as nat, 0);
    let ghost mut emitted: Seq<Seq<char>> = Seq::empty();
    let mut start: usize = 0;
    assert(strings_view(chunks@) =~= Seq::<Seq<char>>::empty());
    assert(emitted + windows_from(text@, chunk_size as nat, overlap as nat, 0) =~= all);
    loop
        invariant_except_break
            start < total,
            all == emitted + windows_from(text@, chunk_size as nat, overlap as nat, start as nat),
        invariant
            chars@ == text@,
            total == chars.len(),
            0 < step <= chunk_size,
            step == chunk_step(chunk_size as nat, overlap as nat),
            all == windows_from(text@, chunk_size as nat, overlap as nat, 0),
            strings_view(chunks@) == trimmed_nonempty(emitted),
            forall|i: int| 0 <= i < chunks.len() ==> chunks[i]@.len() <= chunk_size,
        ensures
            all == emitted,
        decreases total - start,
    {
        let last = chunk_size >= total - start;
        let end = if last {
            total
        } else {
            start + chunk_size
        };
        let ghost window = text@.subrange(start as int, end as int);
        let (a, b) = trim_range(&chars, start, end);
        proof {
            assert(emitted.push(window).drop_last() =~= emitted);
        }
        if a < b {
            let chunk = string_of(&chars, a, b);
            proof {
                lemma_strings_view_push(chunks@, chunk);
            }
            chunks.push(chunk);
        }
        proof {
            let rest = windows_from(text@, chunk_size as nat, overlap as nat, start as nat);
            if last {
                assert(rest =~= seq![window]);
                assert(emitted + rest =~= emitted.push(window));
            } else {
                let next = windows_from(
                    text@,
                    chunk_size as nat,
                    overlap as nat,
                    (start + step) as nat,
                );
                assert(rest == seq![window] + next);
                assert(emitted + rest =~= emitted.push(window) + next);
            }
            emitted = emitted.push(window);
        }
        if last {
            break;
        }
        start += step;
    }
    chunks
}

/// The chunks laid end to end, each but the first without its first
/// `overlap` characters.
pub open spec fn stitch(chunks: Seq<Seq<char>>, overlap: nat) -> Seq<char> {
    if chunks.len() == 0 {
        Seq::empty()
    } else {
        chunks[0] + stitch_tail(chunks.drop_first(), overlap)
    }
}

/// The chunks laid end to end, each without its first `overlap` characters.
pub open spec fn stitch_tail(chunks: Seq<Seq<char>>, overlap: nat) -> Seq<char>
    decreases chunks.len(),
{
    if chunks.len() == 0 {
        Seq::empty()
    } else {
        chunks[0].skip(overlap as int) + stitch_tail(chunks.drop_first(), overlap)
    }
}

proof fn lemma_stitch_tail_windows(text: Seq<char>, size: nat, overlap: nat, start: nat)
    requires
        overlap < size,
        start < text.len(),
        start + overlap <= text.len(),
    ensures
        stitch_tail(windows_from(text, size, overlap, start), overlap)
            == text.skip((start + overlap) as int),
    decreases text.len() - start,
{
    let step = (size - overlap) as nat;
    let ws = windows_from(text, size, overlap, start);
    if start + size >= text.len() {
        assert(ws.drop_first() =~= Seq::<Seq<char>>::empty());
        assert(ws[0].skip(overlap as int) =~= text.skip((start + overlap) as int));
        assert(stitch_tail(ws.drop_first(), overlap) =~= Seq::<char>::empty());
        assert(stitch_tail(ws, overlap) =~= text.skip((start + overlap) as int));
    } else {
        let next = windows_from(text, size, overlap, start + step);
        assert(ws.drop_first() =~= next);
        lemma_stitch_tail_windows(text, size, overlap, start + step);
        assert(ws[0].skip(overlap as int) + text.skip((start + size) as int) =~= text.skip(
            (start + overlap) as int,
        ));
    }
}

/// With an overlap smaller than the window, the windows cover the text: laid
/// end to end without the overlapping characters they give the text back.
pub proof fn lemma_windows_recover_text(text: Seq<char>, chunk_size: nat, overlap: nat)
    requires
        chunk_size > 0,
        overlap < chunk_size,
    ensures
        stitch(windows_from(text, chunk_size, overlap, 0), overlap) == text,
{
    let step = chunk_step(chunk_size, overlap);
    let ws = windows_from(text, chunk_size, overlap, 0);
    if text.len() == 0 {
        assert(stitch(ws, overlap) =~= text);
    } else if chunk_size >= text.len() {
        assert(ws.drop_first() =~= Seq::<Seq<char>>::empty());
        assert(ws[0] =~= text);
        assert(stitch(ws, overlap) =~= text);
    } else {
        let next = windows_from(text, chunk_size, overlap, step);
        assert(ws.drop_first() =~= next);
        lemma_stitch_tail_windows(text, chunk_size, overlap, step);
        assert(ws[0] + text.skip(chunk_size as int) =~= text);
    }
}

/// A window that trimming leaves as it is: not empty, and with no
/// whitespace at either end.
pub open spec fn is_trimmed(window: Seq<char>) -> bool {
    window.len() > 0 && trim(window) == window
}

proof fn lemma_trimmed_nonempty_fixed(windows: Seq<Seq<char>>)
    requires
        forall|i: int| 0 <= i < windows.len() ==> is_trimmed(#[trigger] windows[i]),
    ensures
        trimmed_nonempty(windows) == windows,
    decreases windows.len(),
{
    if windows.len() > 0 {
        let front = windows.drop_last();
        assert forall|i: int| 0 <= i < front.len() implies is_trimmed(#[trigger] front[i]) by {
            assert(is_trimmed(windows[i]));
        }
        lemma_trimmed_nonempty_fixed(front);
        assert(is_trimmed(windows[windows.len() - 1]));
        assert(front.push(windows.last()) =~= windows);
    }
}

/// Chunking loses nothing but whitespace at the windows' edges: with an
/// overlap smaller than the window, the chunks laid end to end without the
/// overlapping characters give the text back, provided that no window of a
/// text that needs more than one begins or ends with whitespace.
pub proof fn lemma_chunks_recover_text(text: Seq<char>, chunk_size: nat, overlap: nat)
    requires
        chunk_size > 0,
        overlap < chunk_size,
        text.len() > chunk_size ==> forall|i: int|
            0 <= i < windows_from(text, chunk_size, overlap, 0).len() ==> is_trimmed(
                #[trigger] windows_from(text, chunk_size, overlap, 0)[i],
            ),
    ensures
        stitch(spec_chunk_text(text, chunk_size, overlap), overlap) == text,
{
    let ws = windows_from(text, chunk_size, overlap, 0);
    if text.len() == 0 {
        assert(stitch(spec_chunk_text(text, chunk_size, overlap), overlap) =~= text);
    } else if text.len() <= chunk_size {
        let cs = seq![text];
        assert(cs.drop_first() =~= Seq::<Seq<char>>::empty());
        assert(stitch(cs, overlap) =~= text);
    } else {
        lemma_trimmed_nonempty_fixed(ws);
        lemma_windows_recover_text(text, chunk_size, overlap);
    }
}

/// How many characters of `s` stand before its first line feed (all of
/// them, where it has none).
pub open spec fn first_newline(s: Seq<char>) -> nat
    decreases s.len(),
{
    if s.len() == 0 || s[0] == '\n' {
        0
    } else {
        1 + first_newline(s.drop_first())
    }
}

/// The first line of `s` that is not blank, trimmed.
pub open spec fn first_content_line(s: Seq<char>) -> Option<Seq<char>>
    decreases s.len(),
{
    let n = first_newline(s);
    let line = trim(s.take(n as int));
    if line.len() > 0 {
        Some(line)
    } else if n >= s.len() {
        None
    } else {
        first_content_line(s.skip((n + 1) as int))
    }
}

/// Whether `c` belongs to the marker of a heading: a `#` or whitespace.
pub open spec fn is_marker(c: char) -> bool {
    c == '#' || is_whitespace(c)
}

/// `s` without the `#` characters and the whitespace it begins with.
pub open spec fn strip_marker(s: Seq<char>) -> Seq<char>
    decreases s.len(),
{
    if s.len() > 0 && is_marker(s[0]) {
        strip_marker(s.drop_first())
    } else {
        s
    }
}

/// The title that a non-blank, trimmed line gives: a heading without the
/// `#`s and the whitespace it begins with and without the whitespace it ends
/// with, any other line cut to 100 characters.
pub open spec fn title_of_line(line: Seq<char>) -> Seq<char> {
    if line.len() > 0 && line[0] == '#' {
        trim_end(strip_marker(line))
    } else {
        spec_truncate(line, 100)
    }
}

/// The title of a document: taken from its first non-blank line, or
/// `fallback` where every line is blank.
pub open spec fn spec_extract_title(text: Seq<char>, fallback: Seq<char>) -> Seq<char> {
    match first_content_line(text) {
        Some(line) => title_of_line(line),
        None => fallback,
    }
}

proof fn lemma_first_newline(s: Seq<char>, k: int)
    requires
        0 <= k <= s.len(),
        forall|i: int| 0 <= i < k ==> s[i] != '\n',
        k == s.len() || s[k] == '\n',
    ensures
        first_newline(s) == k,
    decreases k,
{
    if k > 0 {
        let t = s.drop_first();
        assert forall|i: int| 0 <= i < k - 1 implies t[i] != '\n' by {
            assert(t[i] == s[i + 1]);
        }
        lemma_first_newline(t, k - 1);
    }
}

proof fn lemma_strip_marker(s: Seq<char>, k: int)
    requires
        0 <= k <= s.len(),
        forall|i: int| 0 <= i < k ==> is_marker(s[i]),
        k == s.len() || !is_marker(s[k]),
    ensures
        strip_marker(s) == s.skip(k),
    decreases k,
{
    if k == 0 {
        assert(s.skip(0) =~= s);
    } else {
        let t = s.drop_first();
        assert forall|i: int| 0 <= i < k - 1 implies is_marker(t[i]) by {
            assert(t[i] == s[i + 1]);
        }
        lemma_strip_marker(t, k - 1);
        assert(t.skip(k - 1) =~= s.skip(k));
    }
}

/// Extracts a title from a markdown or plain-text document: the first line
/// that is not blank decides. A line that starts with `#` gives its text
/// without the `#`s and the whitespace before it; any other line is cut to
/// 100 characters. Lines end at a line feed; a carriage return before it is
/// whitespace and is trimmed with the rest.
pub fn extract_title(text: &str, file_name: &str) -> (r: String)
    ensures
        r@ == spec_extract_title(text@, file_name@),
{
    let chars = chars_of(text);
    let total = chars.len();
    let mut pos: usize = 0;
    assert(text@.skip(0) =~= text@);
    loop
        invariant
            chars@ == text@,
            total == chars.len(),
            pos <= total,
            first_content_line(text@) == first_content_line(text@.skip(pos as int)),
        decreases total - pos,
    {
        let ghost rest = text@.skip(pos as int);
        let mut nl: usize = pos;
        while nl < total && chars[nl] != '\n'
            invariant
                pos <= nl <= total,
                total == chars.len(),
                forall|i: int| pos <= i < nl ==> chars@[i] != '\n',
            decreases total - nl,
        {
            nl += 1;
        }
        proof {
            assert forall|i: int| 0 <= i < nl - pos implies rest[i] != '\n' by {
                assert(rest[i] == chars@[pos + i]);
            }
            lemma_first_newline(rest, nl - pos);
            assert(rest.take(nl - pos) =~= chars@.subrange(pos as int, nl as int));
        }
        let (a, b) = trim_range(&chars, pos, nl);
        let ghost line = chars@.subrange(a as int, b as int);
        if a < b {
            if chars[a] == '#' {
                let mut h: usize = a;
                while h < b && (chars[h] == '#' || char_is_whitespace(chars[h]))
                    invariant
                        a <= h <= b <= total,
                        total == chars.len(),
                        forall|i: int| a <= i < h ==> is_marker(chars@[i]),
                    decreases b - h,
                {
                    h += 1;
                }
                let ghost rest_of_line = chars@.subrange(h as int, b as int);
                proof {
                    assert forall|i: int| 0 <= i < h - a implies is_marker(line[i]) by {
                        assert(line[i] == chars@[a + i]);
                    }
                    if h < b {
                        assert(line[h - a] == chars@[h as int]);
                    }
                    lemma_strip_marker(line, h - a);
                    assert(line.skip(h - a) =~= rest_of_line);
                    if h < b {
                        assert(rest_of_line[0] == chars@[h as int]);
                    }
                    lemma_trim_start_is_skip(rest_of_line, 0);
                    assert(rest_of_line.skip(0) =~= rest_of_line);
                }
                let (c, d) = trim_range(&chars, h, b);
                return string_of(&chars, c, d);
            } else {
                return truncate_chars(&chars, a, b, 100);
            }
        }
        if nl >= total {
            return file_name.to_owned();
        }
        proof {
            assert(rest.skip(nl - pos + 1) =~= text@.skip(nl + 1));
        }
        pos = nl + 1;
    }
}

proof fn lemma_strip_marker_head(s: Seq<char>)
    ensures
        strip_marker(s).len() <= s.len(),
        strip_marker(s).len() > 0 ==> !is_marker(strip_marker(s)[0]),
    decreases s.len(),
{
    if s.len() > 0 && is_marker(s[0]) {
        lemma_strip_marker_head(s.drop_first());
    }
}

proof fn lemma_trim_end_shape(s: Seq<char>)
    ensures
        trim_end(s).len() <= s.len(),
        trim_end(s).len() > 0 ==> trim_end(s)[0] == s[0] && !is_whitespace(trim_end(s).last()),
    decreases s.len(),
{
    if s.len() > 0 && is_whitespace(s.last()) {
        lemma_trim_end_shape(s.drop_last());
    }
}

/// The shape of a title. Where the first non-blank line is a heading, the
/// title starts neither with `#` nor with whitespace and does not end with
/// whitespace. Where it is any other line, the title has at most 103
/// characters (100 and the `...` mark). Where every line is blank, the title
/// is the fallback.
pub proof fn lemma_title_shape(text: Seq<char>, fallback: Seq<char>)
    ensures
        match first_content_line(text) {
            Some(line) => {
                let title = spec_extract_title(text, fallback);
                &&& line.len() > 0
                &&& line[0] == '#' ==> title.len() == 0 || (title[0] != '#' && !is_whitespace(
                    title[0],
                ) && !is_whitespace(title.last()))
                &&& line[0] != '#' ==> title.len() <= 103
            },
            None => spec_extract_title(text, fallback) == fallback,
        },
{
    if first_content_line(text) is Some {
        let line = first_content_line(text)->0;
        lemma_first_content_line_nonempty(text);
        if line[0] == '#' {
            lemma_strip_marker_head(line);
            lemma_trim_end_shape(strip_marker(line));
        } else {
            lemma_truncate_len(line, 100);
        }
    }
}

proof fn lemma_first_content_line_nonempty(s: Seq<char>)
    ensures
        first_content_line(s) is Some ==> first_content_line(s)->0.len() > 0,
    decreases s.len(),
{
    let n = first_newline(s);
    let line = trim(s.take(n as int));
    if line.len() == 0 && n < s.len() {
        lemma_first_content_line_nonempty(s.skip((n + 1) as int));
    }
}

} // verus!
