//! How the lines of a note are cut into pieces of one look each: the highlighter's spans,
//! the links in them, and the rest.
use vstd::prelude::*;
use crate::edit::Span;
use crate::session;
use crate::text;
use crate::text::{char_to_byte, chars_of, is_boundary};

verus! {

/// What a piece of a line looks like.
#[derive(Clone, Copy, Debug, PartialEq, Eq, Structural)]
pub enum Look {
    /// Like the highlighter's span with this number.
    Span(usize),
    /// Like plain text.
    Plain,
    /// Like a link.
    Link,
}

/// A piece of a line, in UTF-8 bytes.
#[derive(Clone, Copy, Debug, PartialEq, Eq, Structural)]
pub struct Piece {
    /// Its first byte.
    pub start: usize,
    /// The byte after its last.
    pub end: usize,
    /// What it looks like.
    pub look: Look,
}

/// Whether a byte lies in a span.
pub open spec fn covers(s: Span, pos: int) -> bool {
    s.start <= pos < s.end
}

/// The first link from the `i`th on that a byte lies in.
pub open spec fn link_at(links: Seq<Span>, pos: int, i: int) -> Option<int>
    decreases links.len() - i,
{
    if i >= links.len() {
        None
    } else if covers(links[i], pos) {
        Some(i)
    } else {
        link_at(links, pos, i + 1)
    }
}

/// The nearest start of a link after a byte, among the links from the `i`th on; `end`
/// where there is none before it.
pub open spec fn next_start(links: Seq<Span>, pos: int, end: int, i: int) -> int
    decreases links.len() - i,
{
    if i >= links.len() {
        end
    } else {
        let rest = next_start(links, pos, end, i + 1);
        if pos < links[i].start < rest {
            links[i].start as int
        } else {
            rest
        }
    }
}

/// Where the piece that starts at a byte ends.
pub open spec fn cut(links: Seq<Span>, pos: int, end: int) -> int {
    match link_at(links, pos, 0) {
        Some(k) => if links[k].end < end {
            links[k].end as int
        } else {
            end
        },
        None => next_start(links, pos, end, 0),
    }
}

/// A stretch of a line cut at the links: alternately in a link and not.
pub open spec fn cuts(links: Seq<Span>, pos: int, end: int, base: Look) -> Seq<Piece>
    decreases end - pos,
{
    if pos >= end {
        Seq::empty()
    } else {
        proof {
            lemma_cut(links, pos, end);
        }
        let next = cut(links, pos, end);
        let look = if link_at(links, pos, 0) is Some {
            Look::Link
        } else {
            base
        };
        seq![Piece { start: pos as usize, end: next as usize, look }] + cuts(
            links,
            next,
            end,
            base,
        )
    }
}

proof fn lemma_link_at(links: Seq<Span>, pos: int, i: int)
    requires
        0 <= i <= links.len(),
    ensures
        match link_at(links, pos, i) {
            Some(k) => i <= k < links.len() && covers(links[k], pos),
            None => forall|k: int| i <= k < links.len() ==> !covers(#[trigger] links[k], pos),
        },
    decreases links.len() - i,
{
    if i < links.len() {
        lemma_link_at(links, pos, i + 1);
    }
}

proof fn lemma_next_start(links: Seq<Span>, pos: int, end: int, i: int)
    requires
        0 <= i <= links.len(),
        pos < end,
    ensures
        pos < next_start(links, pos, end, i) <= end,
        forall|k: int|
            i <= k < links.len() && (#[trigger] links[k]).start > pos ==> next_start(
                links,
                pos,
                end,
                i,
            ) <= links[k].start,
    decreases links.len() - i,
{
    if i < links.len() {
        lemma_next_start(links, pos, end, i + 1);
    }
}

/// A piece holds at least one byte and stays in the stretch.
pub proof fn lemma_cut(links: Seq<Span>, pos: int, end: int)
    requires
        pos < end,
    ensures
        pos < cut(links, pos, end) <= end,
{
    lemma_link_at(links, pos, 0);
    lemma_next_start(links, pos, end, 0);
}

/// Whether a piece can be cut out of a line: it lies in it, between whole characters.
pub open spec fn drawable(line: Seq<char>, p: Piece) -> bool {
    text::on_boundary(line, p.start as int) && text::on_boundary(line, p.end as int)
}

/// The pieces that can be cut out of a line.
pub open spec fn drawn(line: Seq<char>, v: Seq<Piece>) -> Seq<Piece>
    decreases v.len(),
{
    if v.len() == 0 {
        Seq::empty()
    } else {
        let before = drawn(line, v.drop_last());
        if drawable(line, v.last()) {
            before.push(v.last())
        } else {
            before
        }
    }
}

/// The pieces of a stretch of a line.
pub open spec fn stretch(
    line: Seq<char>,
    start: int,
    end: int,
    base: Look,
    links: Seq<Span>,
) -> Seq<Piece> {
    drawn(line, cuts(links, start, end, base))
}

fn find_link(links: &Vec<Span>, pos: usize) -> (r: Option<usize>)
    ensures
        match r {
            Some(k) => k < links@.len() && link_at(links@, pos as int, 0) == Some(k as int),
            None => link_at(links@, pos as int, 0) is None,
        },
{
    let mut i: usize = 0;
    while i < links.len()
        invariant
            i <= links@.len(),
            link_at(links@, pos as int, 0) == link_at(links@, pos as int, i as int),
        decreases links@.len() - i,
    {
        if links[i].start <= pos && pos < links[i].end {
            return Some(i);
        }
        i += 1;
    }
    None
}

fn find_next_start(links: &Vec<Span>, pos: usize, end: usize) -> (r: usize)
    ensures
        r == next_start(links@, pos as int, end as int, 0),
{
    let mut i: usize = links.len();
    let mut best: usize = end;
    while i > 0
        invariant
            i <= links@.len(),
            best == next_start(links@, pos as int, end as int, i as int),
        decreases i,
    {
        i -= 1;
        if pos < links[i].start && links[i].start < best {
            best = links[i].start;
        }
    }
    best
}

proof fn lemma_drawn_concat(line: Seq<char>, a: Seq<Piece>, b: Seq<Piece>)
    ensures
        drawn(line, a + b) == drawn(line, a) + drawn(line, b),
    decreases b.len(),
{
    if b.len() == 0 {
        assert(a + b =~= a);
        assert(drawn(line, a) + drawn(line, b) =~= drawn(line, a));
    } else {
        lemma_drawn_concat(line, a, b.drop_last());
        assert((a + b).drop_last() =~= a + b.drop_last());
        assert((a + b).last() == b.last());
        assert(drawn(line, a + b) =~= drawn(line, a) + drawn(line, b));
    }
}

/// Cut a stretch of a line at the links and add the pieces that can be drawn.
pub fn append_split(
    out: &mut Vec<Piece>,
    line: &str,
    start: usize,
    end: usize,
    base: Look,
    links: &Vec<Span>,
)
    ensures
        final(out)@ == old(out)@ + stretch(line@, start as int, end as int, base, links@),
{
    let ghost before = out@;
    let ghost all = cuts(links@, start as int, end as int, base);
    let ghost mut done: Seq<Piece> = Seq::empty();
    let mut pos: usize = start;
    assert(done + all =~= all);
    assert(before + drawn(line@, done) =~= before);
    while pos < end
        invariant
            all == cuts(links@, start as int, end as int, base),
            all == done + cuts(links@, pos as int, end as int, base),
            out@ == before + drawn(line@, done),
        decreases end - pos,
    {
        proof {
            lemma_cut(links@, pos as int, end as int);
            lemma_link_at(links@, pos as int, 0);
        }
        let (next, look): (usize, Look) = match find_link(links, pos) {
            Some(k) => {
                let stop: usize = links[k].end;
                (if stop < end {
                    stop
                } else {
                    end
                }, Look::Link)
            },
            None => (find_next_start(links, pos, end), base),
        };
        let piece = Piece { start: pos, end: next, look };
        let ghost rest = cuts(links@, next as int, end as int, base);
        assert(cuts(links@, pos as int, end as int, base) =~= seq![piece] + rest);
        assert(done + (seq![piece] + rest) =~= done.push(piece) + rest);
        assert(done.push(piece).drop_last() =~= done);
        if is_boundary(line, pos) && is_boundary(line, next) {
            out.push(piece);
            assert(out@ =~= before + drawn(line@, done.push(piece)));
        }
        proof {
            done = done.push(piece);
        }
        pos = next;
    }
    assert(done + Seq::<Piece>::empty() =~= done);
}

/// The pieces of the spans of a line, of the first `n` of them.
pub open spec fn span_pieces(
    line: Seq<char>,
    spans: Seq<Span>,
    links: Seq<Span>,
    n: int,
) -> Seq<Piece>
    decreases n,
{
    if n <= 0 {
        Seq::empty()
    } else {
        let s = spans[n - 1];
        span_pieces(line, spans, links, n - 1) + stretch(
            line,
            s.start as int,
            s.end as int,
            Look::Span((n - 1) as usize),
            links,
        )
    }
}

/// The byte that the spans of a line leave off at.
pub open spec fn covered_upto(spans: Seq<Span>) -> int {
    if spans.len() == 0 {
        0
    } else {
        spans.last().end as int
    }
}

/// The length of a text in UTF-8 bytes.
pub open spec fn byte_len(s: Seq<char>) -> int {
    text::byte_offset(s, s.len() as int) as int
}

/// The pieces of a line: its spans, and as plain text what they leave over; all of it
/// where the highlighter has no spans for the line.
pub open spec fn line_pieces(
    line: Seq<char>,
    spans: Option<Seq<Span>>,
    links: Seq<Span>,
) -> Seq<Piece> {
    match spans {
        None => stretch(line, 0, byte_len(line), Look::Plain, links),
        Some(v) => {
            let head = span_pieces(line, v, links, v.len() as int);
            let at = covered_upto(v);
            if at < byte_len(line) && text::on_boundary(line, at) {
                head + stretch(line, at, byte_len(line), Look::Plain, links)
            } else {
                head
            }
        },
    }
}

/// Cut a line into pieces of one look each.
pub fn highlight_line(line: &str, spans: &Option<Vec<Span>>, links: &Vec<Span>) -> (v: Vec<Piece>)
    ensures
        v@ == line_pieces(
            line@,
            match *spans {
                Some(s) => Some(s@),
                None => None,
            },
            links@,
        ),
{
    let chars = chars_of(line);
    let len: usize = char_to_byte(line, chars.len());
    let mut v: Vec<Piece> = Vec::new();
    match spans {
        None => {
            append_split(&mut v, line, 0, len, Look::Plain, links);
            assert(v@ =~= stretch(line@, 0, byte_len(line@), Look::Plain, links@));
        },
        Some(s) => {
            let mut i: usize = 0;
            let mut at: usize = 0;
            while i < s.len()
                invariant
                    i <= s@.len(),
                    v@ == span_pieces(line@, s@, links@, i as int),
                    at == covered_upto(s@.take(i as int)),
                decreases s@.len() - i,
            {
                append_split(&mut v, line, s[i].start, s[i].end, Look::Span(i), links);
                at = s[i].end;
                assert(s@.take(i + 1).last() == s@[i as int]);
                i += 1;
            }
            assert(s@.take(i as int) =~= s@);
            if at < len && is_boundary(line, at) {
                append_split(&mut v, line, at, len, Look::Plain, links);
            }
        },
    }
    v
}

/// The pieces follow on each other from one byte to another.
pub open spec fn seamless(v: Seq<Piece>, from: int, to: int) -> bool
    decreases v.len(),
{
    if v.len() == 0 {
        from == to
    } else {
        v.last().end == to && v.last().start < v.last().end && seamless(
            v.drop_last(),
            from,
            v.last().start as int,
        )
    }
}

proof fn lemma_seamless_concat(a: Seq<Piece>, b: Seq<Piece>, from: int, mid: int, to: int)
    requires
        seamless(a, from, mid),
        seamless(b, mid, to),
    ensures
        seamless(a + b, from, to),
    decreases b.len(),
{
    if b.len() == 0 {
        assert(a + b =~= a);
    } else {
        lemma_seamless_concat(a, b.drop_last(), from, mid, b.last().start as int);
        assert((a + b).drop_last() =~= a + b.drop_last());
        assert((a + b).last() == b.last());
    }
}

/// Between whole characters.
pub open spec fn cleanly_cut(line: Seq<char>, s: Span) -> bool {
    text::on_boundary(line, s.start as int) && text::on_boundary(line, s.end as int)
}

proof fn lemma_cut_is_clean(line: Seq<char>, links: Seq<Span>, pos: int, end: int)
    requires
        0 <= pos < end <= usize::MAX,
        text::on_boundary(line, end),
        forall|i: int| 0 <= i < links.len() ==> cleanly_cut(line, #[trigger] links[i]),
    ensures
        text::on_boundary(line, cut(links, pos, end)),
{
    lemma_link_at(links, pos, 0);
    match link_at(links, pos, 0) {
        Some(k) => {
            assert(cleanly_cut(line, links[k]));
        },
        None => {
            lemma_next_start_is_clean(line, links, pos, end, 0);
        },
    }
}

proof fn lemma_next_start_is_clean(line: Seq<char>, links: Seq<Span>, pos: int, end: int, i: int)
    requires
        0 <= i <= links.len(),
        text::on_boundary(line, end),
        forall|k: int| 0 <= k < links.len() ==> cleanly_cut(line, #[trigger] links[k]),
    ensures
        text::on_boundary(line, next_start(links, pos, end, i)),
    decreases links.len() - i,
{
    if i < links.len() {
        lemma_next_start_is_clean(line, links, pos, end, i + 1);
        assert(cleanly_cut(line, links[i]));
    }
}

proof fn lemma_stretch_is_seamless(
    line: Seq<char>,
    start: int,
    end: int,
    base: Look,
    links: Seq<Span>,
)
    requires
        0 <= start <= end <= usize::MAX,
        text::on_boundary(line, start),
        text::on_boundary(line, end),
        forall|i: int| 0 <= i < links.len() ==> cleanly_cut(line, #[trigger] links[i]),
    ensures
        seamless(stretch(line, start, end, base, links), start, end),
    decreases end - start,
{
    if start < end {
        let next = cut(links, start, end);
        lemma_cut(links, start, end);
        lemma_cut_is_clean(line, links, start, end);
        lemma_stretch_is_seamless(line, next, end, base, links);
        let look = if link_at(links, start, 0) is Some {
            Look::Link
        } else {
            base
        };
        let piece = Piece { start: start as usize, end: next as usize, look };
        let first = seq![piece];
        let rest = cuts(links, next, end, base);
        assert(cuts(links, start, end, base) == first + rest);
        lemma_drawn_concat(line, first, rest);
        assert(first.drop_last() =~= Seq::<Piece>::empty());
        assert(drawn(line, first.drop_last()) =~= Seq::<Piece>::empty());
        assert(drawn(line, first) =~= first);
        assert(seamless(first.drop_last(), start, start));
        assert(seamless(first, start, next));
        lemma_seamless_concat(first, drawn(line, rest), start, next, end);
    }
}

/// A piece looks like a link exactly when its bytes lie in one.
pub proof fn law_links_look_like_links(
    links: Seq<Span>,
    start: int,
    end: int,
    base: Look,
    i: int,
    b: int,
)
    requires
        0 <= start <= end <= usize::MAX,
        base != Look::Link,
        0 <= i < cuts(links, start, end, base).len(),
        cuts(links, start, end, base)[i].start <= b < cuts(links, start, end, base)[i].end,
    ensures
        cuts(links, start, end, base)[i].look == Look::Link <==> exists|k: int|
            0 <= k < links.len() && covers(#[trigger] links[k], b),
    decreases end - start,
{
    if start < end {
        let next = cut(links, start, end);
        lemma_cut(links, start, end);
        lemma_link_at(links, start, 0);
        lemma_next_start(links, start, end, 0);
        let rest = cuts(links, next, end, base);
        if i > 0 {
            assert(cuts(links, start, end, base)[i] == rest[i - 1]);
            law_links_look_like_links(links, next, end, base, i - 1, b);
        } else {
            match link_at(links, start, 0) {
                Some(k) => {
                    assert(covers(links[k], b));
                },
                None => {
                    assert forall|k: int| 0 <= k < links.len() implies !covers(
                        #[trigger] links[k],
                        b,
                    ) by {
                        assert(!covers(links[k], start));
                    }
                },
            }
        }
    }
}

/// Each piece of a stretch holds something, lies in the stretch, and looks like a link or like
/// the rest of the stretch.
proof fn lemma_cuts_lie_inside(links: Seq<Span>, start: int, end: int, base: Look, i: int)
    requires
        0 <= start <= end <= usize::MAX,
        0 <= i < cuts(links, start, end, base).len(),
    ensures
        ({
            let p = cuts(links, start, end, base)[i];
            start <= p.start < p.end <= end && (p.look == Look::Link || p.look == base)
        }),
    decreases end - start,
{
    if start < end {
        let next = cut(links, start, end);
        lemma_cut(links, start, end);
        if i > 0 {
            assert(cuts(links, start, end, base)[i] == cuts(links, next, end, base)[i - 1]);
            lemma_cuts_lie_inside(links, next, end, base, i - 1);
        }
    }
}

/// What is drawn of a stretch was cut out of it.
proof fn lemma_drawn_was_cut(line: Seq<char>, v: Seq<Piece>, i: int) -> (k: int)
    requires
        0 <= i < drawn(line, v).len(),
    ensures
        0 <= k < v.len(),
        drawn(line, v)[i] == v[k],
        drawable(line, v[k]),
    decreases v.len(),
{
    let before = drawn(line, v.drop_last());
    if i < before.len() {
        lemma_drawn_was_cut(line, v.drop_last(), i)
    } else {
        v.len() - 1
    }
}

/// A piece looks like the highlighter's span that it lies in, or like a link; what no span
/// covers looks like plain text, or like a link. No piece reaches over the end of its span, and
/// none cuts a character.
pub proof fn law_pieces_look_like_their_span(
    line: Seq<char>,
    spans: Seq<Span>,
    links: Seq<Span>,
    n: int,
    i: int,
)
    requires
        0 <= n <= spans.len() <= usize::MAX,
        0 <= i < span_pieces(line, spans, links, n).len(),
        forall|k: int| 0 <= k < spans.len() ==> (#[trigger] spans[k]).start <= spans[k].end,
    ensures
        ({
            let p = span_pieces(line, spans, links, n)[i];
            exists|k: int|
                0 <= k < n && (#[trigger] spans[k]).start <= p.start < p.end <= spans[k].end && (
                p.look == Look::Span(k as usize) || p.look == Look::Link)
        }),
        text::on_boundary(line, span_pieces(line, spans, links, n)[i].start as int),
        text::on_boundary(line, span_pieces(line, spans, links, n)[i].end as int),
    decreases n,
{
    let before = span_pieces(line, spans, links, n - 1);
    if i < before.len() {
        law_pieces_look_like_their_span(line, spans, links, n - 1, i);
    } else {
        let s = spans[n - 1];
        let base = Look::Span((n - 1) as usize);
        let all = cuts(links, s.start as int, s.end as int, base);
        let k = lemma_drawn_was_cut(line, all, i - before.len());
        lemma_cuts_lie_inside(links, s.start as int, s.end as int, base, k);
        assert(spans[n - 1].start <= span_pieces(line, spans, links, n)[i].start);
    }
}

/// A line that the highlighter knows nothing of is plain text but for its links.
pub proof fn law_unknown_lines_are_plain(line: Seq<char>, links: Seq<Span>, i: int)
    requires
        byte_len(line) <= usize::MAX,
        0 <= i < line_pieces(line, None, links).len(),
    ensures
        ({
            let p = line_pieces(line, None, links)[i];
            &&& p.look == Look::Link || p.look == Look::Plain
            &&& p.start < p.end <= byte_len(line)
            &&& text::on_boundary(line, p.start as int) && text::on_boundary(line, p.end as int)
        }),
{
    let all = cuts(links, 0, byte_len(line), Look::Plain);
    let k = lemma_drawn_was_cut(line, all, i);
    lemma_cuts_lie_inside(links, 0, byte_len(line), Look::Plain, k);
}

/// The spans follow on each other from the start of the line.
pub open spec fn follow_on(spans: Seq<Span>) -> bool {
    &&& spans.len() > 0 ==> spans[0].start == 0
    &&& forall|i: int, j: int|
        0 <= i && j == i + 1 && j < spans.len() ==> (#[trigger] spans[i]).end == (
        #[trigger] spans[j]).start
}

/// A highlighted line is the line: where the highlighter's spans follow on each other
/// from its start, and spans and links are cut between whole characters, the pieces
/// follow on each other from the first byte to the last, and none is lost.
pub proof fn law_highlighting_keeps_the_line(line: Seq<char>, spans: Seq<Span>, links: Seq<Span>)
    requires
        byte_len(line) <= usize::MAX,
        forall|i: int| 0 <= i < links.len() ==> cleanly_cut(line, #[trigger] links[i]),
        follow_on(spans),
        forall|i: int|
            0 <= i < spans.len() ==> cleanly_cut(line, #[trigger] spans[i]) && spans[i].start
                <= spans[i].end,
    ensures
        seamless(line_pieces(line, Some(spans), links), 0, byte_len(line)),
        seamless(line_pieces(line, None, links), 0, byte_len(line)),
{
    text::lemma_char_index_of_offset(line, 0);
    text::lemma_char_index_of_offset(line, line.len() as int);
    assert(line.take(0) =~= Seq::<char>::empty());
    assert(text::byte_offset(line, 0) == 0);
    lemma_stretch_is_seamless(line, 0, byte_len(line), Look::Plain, links);
    lemma_span_pieces(line, spans, links, spans.len() as int);
    let at = covered_upto(spans);
    if spans.len() > 0 {
        assert(cleanly_cut(line, spans[spans.len() - 1]));
    }
    text::lemma_char_index_bounds(line, at);
    if text::char_index(line, at) < line.len() {
        text::lemma_byte_offset_increases(line, text::char_index(line, at), line.len() as int);
    }
    assert(spans.take(spans.len() as int) =~= spans);
    if at < byte_len(line) {
        lemma_stretch_is_seamless(line, at, byte_len(line), Look::Plain, links);
        lemma_seamless_concat(
            span_pieces(line, spans, links, spans.len() as int),
            stretch(line, at, byte_len(line), Look::Plain, links),
            0,
            at,
            byte_len(line),
        );
    }
}

proof fn lemma_span_pieces(line: Seq<char>, spans: Seq<Span>, links: Seq<Span>, n: int)
    requires
        0 <= n <= spans.len(),
        forall|i: int| 0 <= i < links.len() ==> cleanly_cut(line, #[trigger] links[i]),
        follow_on(spans),
        forall|i: int|
            0 <= i < spans.len() ==> cleanly_cut(line, #[trigger] spans[i]) && spans[i].start
                <= spans[i].end,
    ensures
        seamless(span_pieces(line, spans, links, n), 0, covered_upto(spans.take(n))),
    decreases n,
{
    assert(spans.take(spans.len() as int) =~= spans);
    if n > 0 {
        lemma_span_pieces(line, spans, links, n - 1);
        let s = spans[n - 1];
        assert(cleanly_cut(line, s));
        assert(spans.take(n).last() == s);
        if n > 1 {
            assert(spans.take(n - 1).last() == spans[n - 2]);
        }
        lemma_stretch_is_seamless(
            line,
            s.start as int,
            s.end as int,
            Look::Span((n - 1) as usize),
            links,
        );
        lemma_seamless_concat(
            span_pieces(line, spans, links, n - 1),
            stretch(line, s.start as int, s.end as int, Look::Span((n - 1) as usize), links),
            0,
            s.start as int,
            s.end as int,
        );
    }
}

/// A text cut after each line feed: one more character either opens a new line, when the
/// one before is complete, or lengthens the last.
pub open spec fn kept_lines(s: Seq<char>) -> Seq<Seq<char>>
    decreases s.len(),
{
    if s.len() == 0 {
        Seq::empty()
    } else {
        let before = kept_lines(s.drop_last());
        if before.len() == 0 || (before.last().len() > 0 && before.last().last() == '\n') {
            before.push(seq![s.last()])
        } else {
            before.update(before.len() - 1, before.last().push(s.last()))
        }
    }
}

/// Lines put one behind the other.
pub open spec fn glued(v: Seq<Seq<char>>) -> Seq<char>
    decreases v.len(),
{
    if v.len() == 0 {
        Seq::empty()
    } else {
        glued(v.drop_last()) + v.last()
    }
}

/// The lines of a text, each with its line feed, are the text.
pub proof fn law_kept_lines_are_the_text(s: Seq<char>)
    ensures
        glued(kept_lines(s)) == s,
    decreases s.len(),
{
    if s.len() > 0 {
        law_kept_lines_are_the_text(s.drop_last());
        let before = kept_lines(s.drop_last());
        let after = kept_lines(s);
        assert(s =~= s.drop_last().push(s.last()));
        if before.len() == 0 || (before.last().len() > 0 && before.last().last() == '\n') {
            assert(after.drop_last() =~= before);
            assert(glued(after) =~= s);
        } else {
            assert(after.drop_last() =~= before.drop_last());
            assert(glued(after) =~= glued(before).push(s.last()));
        }
    }
}

/// A line ends with its line feed: no line is empty, a line feed stands nowhere but at a line's
/// end, and every line but the last has one.
pub proof fn law_lines_end_with_their_line_feed(s: Seq<char>, i: int)
    requires
        0 <= i < kept_lines(s).len(),
    ensures
        kept_lines(s)[i].len() > 0,
        forall|k: int|
            0 <= k < kept_lines(s)[i].len() - 1 ==> #[trigger] kept_lines(s)[i][k] != '\n',
        i < kept_lines(s).len() - 1 ==> kept_lines(s)[i].last() == '\n',
    decreases s.len(),
{
    if s.len() > 0 {
        let before = kept_lines(s.drop_last());
        let after = kept_lines(s);
        if i < before.len() {
            law_lines_end_with_their_line_feed(s.drop_last(), i);
            assert(i < before.len() - 1 ==> after[i] == before[i]);
            let l = after[i];
            assert forall|k: int| 0 <= k < l.len() - 1 implies #[trigger] l[k] != '\n' by {
                if k < before[i].len() - 1 {
                    assert(l[k] == before[i][k]);
                }
            }
        }
    }
}

/// The lines of a text, each with its line feed.
pub fn lines_with_ends(s: &str) -> (v: Vec<String>)
    ensures
        session::str_views(v@) == kept_lines(s@),
{
    let chars = chars_of(s);
    let n: usize = chars.len();
    let mut v: Vec<String> = Vec::new();
    let mut open: bool = false;
    let mut i: usize = 0;
    while i < n
        invariant
            n == chars@.len(),
            chars@ == s@,
            i <= n,
            session::str_views(v@) == kept_lines(s@.take(i as int)),
            open == (v@.len() > 0 && !(v@.last()@.len() > 0 && v@.last()@.last() == '\n')),
        decreases n - i,
    {
        let c = chars[i];
        let ghost before = session::str_views(v@);
        proof {
            assert(s@.take(i + 1).drop_last() =~= s@.take(i as int));
            assert(s@.take(i + 1).last() == c);
            if before.len() > 0 {
                assert(before.last() == v@.last()@);
            }
        }
        if open {
            let mut line = match v.pop() {
                Some(l) => l,
                None => String::new(),
            };
            line.push(c);
            v.push(line);
            assert(session::str_views(v@) =~= before.update(
                before.len() - 1,
                before.last().push(c),
            ));
        } else {
            let mut line = String::new();
            line.push(c);
            assert(line@ =~= seq![c]);
            v.push(line);
            assert(session::str_views(v@) =~= before.push(seq![c]));
        }
        assert(v@.last()@.last() == c);
        open = c != '\n';
        i += 1;
    }
    assert(s@.take(n as int) =~= s@);
    v
}

/// Cut a note into lines and each line into pieces of one look each. `spans` and `links`
/// hold those of each line; the highlighter may have none for the last ones.
pub fn highlight_note(s: &str, spans: &Vec<Vec<Span>>, links: &Vec<Vec<Span>>) -> (v: Vec<
    (String, Vec<Piece>),
>)
    ensures
        v@.len() == kept_lines(s@).len(),
        forall|i: int|
            #![trigger v@[i]]
            0 <= i < v@.len() ==> v@[i].0@ == kept_lines(s@)[i] && v@[i].1@ == line_pieces(
                kept_lines(s@)[i],
                if i < spans@.len() {
                    Some(spans@[i]@)
                } else {
                    None
                },
                if i < links@.len() {
                    links@[i]@
                } else {
                    Seq::empty()
                },
            ),
{
    let lines = lines_with_ends(s);
    let ghost all = kept_lines(s@);
    let n: usize = lines.len();
    let mut v: Vec<(String, Vec<Piece>)> = Vec::new();
    let mut i: usize = 0;
    while i < n
        invariant
            n == all.len(),
            all == kept_lines(s@),
            i <= n,
            lines@.len() == n,
            session::str_views(lines@) == all,
            v@.len() == i,
            forall|k: int|
                #![trigger v@[k]]
                0 <= k < i ==> v@[k].0@ == all[k] && v@[k].1@ == line_pieces(
                    all[k],
                    if k < spans@.len() {
                        Some(spans@[k]@)
                    } else {
                        None
                    },
                    if k < links@.len() {
                        links@[k]@
                    } else {
                        Seq::empty()
                    },
                ),
        decreases n - i,
    {
        let line = lines[i].clone();
        assert(line@ == all[i as int]);
        let pieces = line_with(line.as_str(), spans, links, i);
        v.push((line, pieces));
        i += 1;
    }
    v
}

fn line_with(line: &str, spans: &Vec<Vec<Span>>, links: &Vec<Vec<Span>>, i: usize) -> (v: Vec<
    Piece,
>)
    ensures
        v@ == line_pieces(
            line@,
            if i < spans@.len() {
                Some(spans@[i as int]@)
            } else {
                None
            },
            if i < links@.len() {
                links@[i as int]@
            } else {
                Seq::empty()
            },
        ),
{
    let none: Vec<Span> = Vec::new();
    let own = if i < spans.len() {
        Some(copy_spans(&spans[i]))
    } else {
        None
    };
    if i < links.len() {
        highlight_line(line, &own, &links[i])
    } else {
        highlight_line(line, &own, &none)
    }
}

fn copy_spans(v: &Vec<Span>) -> (r: Vec<Span>)
    ensures
        r@ == v@,
{
    let mut r: Vec<Span> = Vec::new();
    let mut i: usize = 0;
    while i < v.len()
        invariant
            i <= v@.len(),
            r@ == v@.take(i as int),
        decreases v@.len() - i,
    {
        r.push(v[i]);
        assert(v@.take(i + 1) =~= v@.take(i as int).push(v@[i as int]));
        i += 1;
    }
    assert(v@.take(i as int) =~= v@);
    r
}

} // verus!
