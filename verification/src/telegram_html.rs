//! Markdown as Telegram's HTML, and long texts cut into messages.
use vstd::prelude::*;
use vstd::string::*;
use vstd::utf8::encode_utf8;

use crate::text::{
    byte_len, chars_of, is_whitespace, law_trim_back_cuts_the_back, lemma_encode_prefix_shorter,
    lemma_trim_back_prefix, string_of, trim_back,
    trim_set_back, CharSet,
};

verus! {

// ---------------------------------------------------------------------------
// Escaping
// ---------------------------------------------------------------------------

/// How a character is written in HTML text.
pub open spec fn escaped_char(c: char) -> Seq<char> {
    if c == '&' {
        "&amp;"@
    } else if c == '<' {
        "&lt;"@
    } else if c == '>' {
        "&gt;"@
    } else {
        seq![c]
    }
}

/// How a text is written in HTML.
pub open spec fn escaped(s: Seq<char>) -> Seq<char>
    decreases s.len(),
{
    if s.len() == 0 {
        Seq::empty()
    } else {
        escaped(s.drop_last()) + escaped_char(s.last())
    }
}

fn escape(s: &str) -> (r: Vec<char>)
    ensures
        r@ == escaped(s@),
{
    let v = chars_of(s);
    let mut out = String::new();
    let mut i: usize = 0;
    while i < v.len()
        invariant
            i <= v@.len(),
            out@ == escaped(v@.take(i as int)),
        decreases v@.len() - i,
    {
        assert(v@.take(i + 1).drop_last() == v@.take(i as int));
        let c = v[i];
        if c == '&' {
            out.push_str("&amp;");
        } else if c == '<' {
            out.push_str("&lt;");
        } else if c == '>' {
            out.push_str("&gt;");
        } else {
            out.push(c);
        }
        assert(out@ =~= escaped(v@.take(i as int)) + escaped_char(c));
        i += 1;
    }
    assert(v@.take(i as int) == v@);
    chars_of(out.as_str())
}

// ---------------------------------------------------------------------------
// Markdown
// ---------------------------------------------------------------------------

/// The number of characters before the first `c`; all of them where there is none.
pub open spec fn before_char(s: Seq<char>, c: char) -> int
    decreases s.len(),
{
    if s.len() == 0 || s[0] == c {
        0
    } else {
        1 + before_char(s.drop_first(), c)
    }
}

/// The number of characters before the first `c` that another `c` follows; all of
/// them where there is none.
pub open spec fn before_pair(s: Seq<char>, c: char) -> int
    decreases s.len(),
{
    if s.len() == 0 || (s.len() >= 2 && s[0] == c && s[1] == c) {
        0
    } else {
        1 + before_pair(s.drop_first(), c)
    }
}

/// The number of leading `c`.
pub open spec fn leading(s: Seq<char>, c: char) -> int
    decreases s.len(),
{
    if s.len() > 0 && s[0] == c {
        1 + leading(s.drop_first(), c)
    } else {
        0
    }
}

/// `s` without its first `n` characters.
pub open spec fn dropped(s: Seq<char>, n: int) -> Seq<char> {
    if n <= s.len() {
        s.skip(n)
    } else {
        Seq::empty()
    }
}

/// Whether `s` begins with `c`.
pub open spec fn begins(s: Seq<char>, c: char) -> bool {
    s.len() > 0 && s[0] == c
}

/// A stretch of output.
pub enum Piece {
    /// Text as it stands.
    Plain(Seq<char>),
    Bold(Seq<char>),
    Italic(Seq<char>),
    Code(Seq<char>),
    Block(Seq<char>),
    Link { url: Seq<char>, text: Seq<char> },
}

/// A stretch of output in HTML.
pub open spec fn piece_html(p: Piece) -> Seq<char> {
    match p {
        Piece::Plain(t) => t,
        Piece::Bold(t) => "<b>"@ + t + "</b>"@,
        Piece::Italic(t) => "<i>"@ + t + "</i>"@,
        Piece::Code(t) => "<code>"@ + t + "</code>"@,
        Piece::Block(t) => "<pre>"@ + t + "</pre>"@,
        Piece::Link { url, text } => "<a href=\""@ + url + "\">"@ + text + "</a>"@,
    }
}

/// The first stretch of output of `s`, which is not empty, and what is left of `s`
/// after it.
pub open spec fn first_piece(s: Seq<char>, line_start: bool) -> (Piece, Seq<char>) {
    let c = s[0];
    let rest = s.drop_first();
    if c == '*' && begins(rest, '*') {
        let body = dropped(s, 2);
        let n = before_pair(body, '*');
        (Piece::Bold(body.take(n)), dropped(body, n + 2))
    } else if c == '*' {
        let n = before_char(rest, '*');
        (
            if n == 0 {
                Piece::Plain(seq!['*'])
            } else {
                Piece::Italic(rest.take(n))
            },
            dropped(rest, n + 1),
        )
    } else if c == '`' && begins(rest, '`') && begins(dropped(s, 2), '`') {
        let tagged = dropped(s, 3);
        let body = dropped(tagged, before_char(tagged, '\n') + 1);
        let n = before_pair(body, '`');
        let after = dropped(body, n + 2);
        (
            Piece::Block(trim_back(body.take(n), CharSet::Whitespace)),
            if begins(after, '`') {
                after.drop_first()
            } else {
                after
            },
        )
    } else if c == '`' && begins(rest, '`') {
        let body = dropped(s, 2);
        let n = before_pair(body, '`');
        (Piece::Code(body.take(n)), dropped(body, n + 2))
    } else if c == '`' {
        let n = before_char(rest, '`');
        (Piece::Code(rest.take(n)), dropped(rest, n + 1))
    } else if c == '#' && line_start {
        let marked = dropped(rest, leading(rest, '#'));
        let body = if begins(marked, ' ') {
            marked.drop_first()
        } else {
            marked
        };
        let n = before_char(body, '\n');
        (Piece::Bold(body.take(n)), dropped(body, n))
    } else if c == '[' {
        let n = before_char(rest, ']');
        let text = rest.take(n);
        let after = dropped(rest, n + 1);
        if n < rest.len() && begins(after, '(') {
            let target = after.drop_first();
            let m = before_char(target, ')');
            (Piece::Link { url: target.take(m), text }, dropped(target, m + 1))
        } else {
            (Piece::Plain(seq!['['] + text + seq![']']), after)
        }
    } else {
        (Piece::Plain(seq![c]), rest)
    }
}

pub proof fn lemma_before_char(s: Seq<char>, c: char)
    ensures
        0 <= before_char(s, c) <= s.len(),
        before_char(s, c) < s.len() ==> s[before_char(s, c)] == c,
    decreases s.len(),
{
    if s.len() > 0 && s[0] != c {
        lemma_before_char(s.drop_first(), c);
    }
}

pub proof fn lemma_before_pair(s: Seq<char>, c: char)
    ensures
        0 <= before_pair(s, c) <= s.len(),
        before_pair(s, c) < s.len() ==> before_pair(s, c) + 2 <= s.len() && s[before_pair(s, c)]
            == c,
    decreases s.len(),
{
    if s.len() > 0 && !(s.len() >= 2 && s[0] == c && s[1] == c) {
        lemma_before_pair(s.drop_first(), c);
    }
}

pub proof fn lemma_leading(s: Seq<char>, c: char)
    ensures
        0 <= leading(s, c) <= s.len(),
    decreases s.len(),
{
    if s.len() > 0 && s[0] == c {
        lemma_leading(s.drop_first(), c);
    }
}

/// A stretch of output uses up some of the source.
pub proof fn lemma_first_piece_shrinks(s: Seq<char>, line_start: bool)
    requires
        s.len() > 0,
    ensures
        first_piece(s, line_start).1.len() < s.len(),
{
    let rest = s.drop_first();
    lemma_before_char(rest, '*');
    lemma_before_char(rest, '`');
    lemma_before_char(rest, ']');
    lemma_before_pair(dropped(s, 2), '*');
    lemma_before_pair(dropped(s, 2), '`');
    let tagged = dropped(s, 3);
    lemma_before_char(tagged, '\n');
    lemma_before_pair(dropped(tagged, before_char(tagged, '\n') + 1), '`');
    lemma_leading(rest, '#');
    let marked = dropped(rest, leading(rest, '#'));
    let body = if begins(marked, ' ') {
        marked.drop_first()
    } else {
        marked
    };
    lemma_before_char(body, '\n');
    let after = dropped(rest, before_char(rest, ']') + 1);
    if after.len() > 0 {
        lemma_before_char(after.drop_first(), ')');
    }
}

/// The output of `s`, stretch by stretch. A heading is only seen at the start of a
/// line.
pub open spec fn pieces(s: Seq<char>, line_start: bool) -> Seq<Piece>
    decreases s.len(),
{
    if s.len() == 0 {
        Seq::empty()
    } else {
        let (p, rest) = first_piece(s, line_start);
        proof {
            lemma_first_piece_shrinks(s, line_start);
        }
        seq![p] + pieces(rest, s[0] == '\n')
    }
}

/// The HTML of a row of stretches.
pub open spec fn pieces_html(ps: Seq<Piece>) -> Seq<char>
    decreases ps.len(),
{
    if ps.len() == 0 {
        Seq::empty()
    } else {
        piece_html(ps[0]) + pieces_html(ps.drop_first())
    }
}

/// The HTML of a Markdown text.
pub open spec fn html_of(text: Seq<char>) -> Seq<char> {
    pieces_html(pieces(escaped(text), true))
}

/// The position of the first `c` from `from` on.
fn index_char(v: &Vec<char>, from: usize, c: char) -> (r: usize)
    requires
        from <= v@.len(),
    ensures
        from <= r <= v@.len(),
        r - from == before_char(v@.skip(from as int), c),
{
    let mut i: usize = from;
    while i < v.len() && v[i] != c
        invariant
            from <= i <= v@.len(),
            before_char(v@.skip(from as int), c) == i - from + before_char(v@.skip(i as int), c),
        decreases v@.len() - i,
    {
        assert(v@.skip(i as int).drop_first() == v@.skip(i + 1));
        i += 1;
    }
    i
}

/// The position of the first two `c` in a row from `from` on.
fn index_pair(v: &Vec<char>, from: usize, c: char) -> (r: usize)
    requires
        from <= v@.len(),
    ensures
        from <= r <= v@.len(),
        r - from == before_pair(v@.skip(from as int), c),
{
    let mut i: usize = from;
    while i < v.len() && !(i + 1 < v.len() && v[i] == c && v[i + 1] == c)
        invariant
            from <= i <= v@.len(),
            before_pair(v@.skip(from as int), c) == i - from + before_pair(v@.skip(i as int), c),
        decreases v@.len() - i,
    {
        assert(v@.skip(i as int).drop_first() == v@.skip(i + 1));
        i += 1;
    }
    i
}

/// The position after the `c` that stand at `from`.
fn skip_leading(v: &Vec<char>, from: usize, c: char) -> (r: usize)
    requires
        from <= v@.len(),
    ensures
        from <= r <= v@.len(),
        r - from == leading(v@.skip(from as int), c),
{
    let mut i: usize = from;
    while i < v.len() && v[i] == c
        invariant
            from <= i <= v@.len(),
            leading(v@.skip(from as int), c) == i - from + leading(v@.skip(i as int), c),
        decreases v@.len() - i,
    {
        assert(v@.skip(i as int).drop_first() == v@.skip(i + 1));
        i += 1;
    }
    i
}

/// `from + n`, or the end where that is past it.
fn advance(v: &Vec<char>, from: usize, n: usize) -> (r: usize)
    requires
        from <= v@.len(),
    ensures
        from <= r <= v@.len(),
        v@.skip(r as int) == dropped(v@.skip(from as int), n as int),
{
    let left: usize = v.len() - from;
    let r: usize = if n <= left {
        from + n
    } else {
        v.len()
    };
    assert(v@.skip(r as int) =~= dropped(v@.skip(from as int), n as int));
    r
}

fn has_char(v: &Vec<char>, at: usize, c: char) -> (r: bool)
    requires
        at <= v@.len(),
    ensures
        r == begins(v@.skip(at as int), c),
{
    at < v.len() && v[at] == c
}

/// Appends `open`, `v[from..to]` and `close`.
fn push_tagged(out: &mut String, open: &str, v: &Vec<char>, from: usize, to: usize, close: &str)
    requires
        from <= to <= v@.len(),
    ensures
        final(out)@ == old(out)@ + (open@ + v@.subrange(from as int, to as int) + close@),
{
    out.push_str(open);
    let body = string_of(v, from, to);
    out.push_str(body.as_str());
    out.push_str(close);
    assert(out@ =~= old(out)@ + (open@ + v@.subrange(from as int, to as int) + close@));
}

fn push_star(out: &mut String, v: &Vec<char>, pos: usize, Ghost(line_start): Ghost<bool>) -> (next:
    usize)
    requires
        pos < v@.len(),
        v@[pos as int] == '*',
    ensures
        pos < next <= v@.len(),
        final(out)@ == old(out)@ + piece_html(first_piece(v@.skip(pos as int), line_start).0),
        v@.skip(next as int) == first_piece(v@.skip(pos as int), line_start).1,
{
    let len: usize = v.len();
    let ghost s = v@.skip(pos as int);
    assert(pos < len && s.drop_first() == v@.skip(pos + 1));
    if has_char(v, pos + 1, '*') {
        let from = advance(v, pos, 2);
        let to = index_pair(v, from, '*');
        assert(dropped(s, 2).take(to - from) == v@.subrange(from as int, to as int));
        push_tagged(out, "<b>", v, from, to, "</b>");
        let next = advance(v, to, 2);
        assert(v@.skip(next as int) =~= dropped(dropped(s, 2), to - from + 2));
        next
    } else {
        let from: usize = pos + 1;
        let to = index_char(v, from, '*');
        assert(s.drop_first().take(to - from) == v@.subrange(from as int, to as int));
        if to == from {
            out.push('*');
            assert(out@ =~= old(out)@ + seq!['*']);
        } else {
            push_tagged(out, "<i>", v, from, to, "</i>");
        }
        let next = advance(v, to, 1);
        assert(v@.skip(next as int) =~= dropped(s.drop_first(), to - from + 1));
        next
    }
}

fn push_tick(out: &mut String, v: &Vec<char>, pos: usize, Ghost(line_start): Ghost<bool>) -> (next:
    usize)
    requires
        pos < v@.len(),
        v@[pos as int] == '`',
    ensures
        pos < next <= v@.len(),
        final(out)@ == old(out)@ + piece_html(first_piece(v@.skip(pos as int), line_start).0),
        v@.skip(next as int) == first_piece(v@.skip(pos as int), line_start).1,
{
    let len: usize = v.len();
    let ghost s = v@.skip(pos as int);
    assert(pos < len && s.drop_first() == v@.skip(pos + 1));
    if has_char(v, pos + 1, '`') {
        let second = advance(v, pos, 2);
        if has_char(v, second, '`') {
            let tagged = advance(v, pos, 3);
            let line_end = index_char(v, tagged, '\n');
            let from = advance(v, line_end, 1);
            let ghost body = dropped(dropped(s, 3), line_end - tagged + 1);
            assert(v@.skip(from as int) =~= body);
            let to = index_pair(v, from, '`');
            let code = string_of(v, from, to);
            assert(body.take(to - from) == v@.subrange(from as int, to as int));
            out.push_str("<pre>");
            out.push_str(trim_set_back(code.as_str(), CharSet::Whitespace));
            out.push_str("</pre>");
            assert(out@ =~= old(out)@ + ("<pre>"@ + trim_back(
                body.take(to - from),
                CharSet::Whitespace,
            ) + "</pre>"@));
            let after = advance(v, to, 2);
            assert(v@.skip(after as int) =~= dropped(body, to - from + 2));
            if has_char(v, after, '`') {
                assert(v@.skip(after as int).drop_first() =~= v@.skip(after + 1));
                after + 1
            } else {
                after
            }
        } else {
            let to = index_pair(v, second, '`');
            assert(dropped(s, 2).take(to - second) == v@.subrange(second as int, to as int));
            push_tagged(out, "<code>", v, second, to, "</code>");
            let next = advance(v, to, 2);
            assert(v@.skip(next as int) =~= dropped(dropped(s, 2), to - second + 2));
            next
        }
    } else {
        let from: usize = pos + 1;
        let to = index_char(v, from, '`');
        assert(s.drop_first().take(to - from) == v@.subrange(from as int, to as int));
        push_tagged(out, "<code>", v, from, to, "</code>");
        let next = advance(v, to, 1);
        assert(v@.skip(next as int) =~= dropped(s.drop_first(), to - from + 1));
        next
    }
}

fn push_heading(out: &mut String, v: &Vec<char>, pos: usize) -> (next: usize)
    requires
        pos < v@.len(),
        v@[pos as int] == '#',
    ensures
        pos < next <= v@.len(),
        final(out)@ == old(out)@ + piece_html(first_piece(v@.skip(pos as int), true).0),
        v@.skip(next as int) == first_piece(v@.skip(pos as int), true).1,
{
    let len: usize = v.len();
    let ghost s = v@.skip(pos as int);
    let ghost rest = s.drop_first();
    assert(pos < len);
    assert(rest == v@.skip(pos + 1));
    let marked = skip_leading(v, pos + 1, '#');
    assert(v@.skip(marked as int) =~= dropped(rest, marked - (pos + 1)));
    let from: usize = if has_char(v, marked, ' ') {
        marked + 1
    } else {
        marked
    };
    let ghost body = v@.skip(from as int);
    assert(body =~= if begins(v@.skip(marked as int), ' ') {
        v@.skip(marked as int).drop_first()
    } else {
        v@.skip(marked as int)
    });
    let to = index_char(v, from, '\n');
    assert(body.take(to - from) == v@.subrange(from as int, to as int));
    push_tagged(out, "<b>", v, from, to, "</b>");
    assert(v@.skip(to as int) =~= dropped(body, to - from));
    to
}

fn push_bracket(out: &mut String, v: &Vec<char>, pos: usize, Ghost(line_start): Ghost<bool>) -> (next:
    usize)
    requires
        pos < v@.len(),
        v@[pos as int] == '[',
    ensures
        pos < next <= v@.len(),
        final(out)@ == old(out)@ + piece_html(first_piece(v@.skip(pos as int), line_start).0),
        v@.skip(next as int) == first_piece(v@.skip(pos as int), line_start).1,
{
    let len: usize = v.len();
    let ghost s = v@.skip(pos as int);
    let ghost rest = s.drop_first();
    assert(pos < len);
    let from: usize = pos + 1;
    assert(rest == v@.skip(from as int));
    let to = index_char(v, from, ']');
    assert(rest.take(to - from) == v@.subrange(from as int, to as int));
    let after = advance(v, to, 1);
    assert(v@.skip(after as int) =~= dropped(rest, to - from + 1));
    if to < v.len() && has_char(v, after, '(') {
        let start: usize = after + 1;
        let ghost target = v@.skip(after as int).drop_first();
        assert(target =~= v@.skip(start as int));
        let end = index_char(v, start, ')');
        assert(target.take(end - start) == v@.subrange(start as int, end as int));
        let text = string_of(v, from, to);
        push_tagged(out, "<a href=\"", v, start, end, "\">");
        out.push_str(text.as_str());
        out.push_str("</a>");
        assert(out@ =~= old(out)@ + ("<a href=\""@ + target.take(end - start) + "\">"@ + rest.take(
            to - from,
        ) + "</a>"@));
        let next = advance(v, end, 1);
        assert(v@.skip(next as int) =~= dropped(target, end - start + 1));
        next
    } else {
        let text = string_of(v, from, to);
        out.push('[');
        out.push_str(text.as_str());
        out.push(']');
        assert(out@ =~= old(out)@ + (seq!['['] + rest.take(to - from) + seq![']']));
        after
    }
}

/// Appends the first stretch of output of `v[pos..]`, and returns the position
/// after it.
fn push_first(out: &mut String, v: &Vec<char>, pos: usize, line_start: bool) -> (next: usize)
    requires
        pos < v@.len(),
    ensures
        pos < next <= v@.len(),
        final(out)@ == old(out)@ + piece_html(first_piece(v@.skip(pos as int), line_start).0),
        v@.skip(next as int) == first_piece(v@.skip(pos as int), line_start).1,
{
    let len: usize = v.len();
    assert(pos < len);
    let c = v[pos];
    if c == '*' {
        push_star(out, v, pos, Ghost(line_start))
    } else if c == '`' {
        push_tick(out, v, pos, Ghost(line_start))
    } else if c == '#' && line_start {
        push_heading(out, v, pos)
    } else if c == '[' {
        push_bracket(out, v, pos, Ghost(line_start))
    } else {
        out.push(c);
        assert(out@ =~= old(out)@ + seq![c]);
        assert(v@.skip(pos as int).drop_first() =~= v@.skip(pos + 1));
        pos + 1
    }
}

/// Markdown as Telegram's HTML: `**bold**`, `*italic*`, code in one, two or three
/// backticks, `#` headings and `[text](url)` links.
pub fn markdown_to_telegram_html(text: &str) -> (r: String)
    ensures
        r@ == html_of(text@),
{
    let v = escape(text);
    let mut out = String::new();
    let mut pos: usize = 0;
    let mut line_start = true;
    let ghost whole = pieces_html(pieces(v@, true));
    assert(v@.skip(0) == v@);
    while pos < v.len()
        invariant
            pos <= v@.len(),
            whole == out@ + pieces_html(pieces(v@.skip(pos as int), line_start)),
        decreases v@.len() - pos,
    {
        let ghost before = out@;
        let ghost s = v@.skip(pos as int);
        let ghost rest = first_piece(s, line_start).1;
        let ghost tail = pieces(rest, s[0] == '\n');
        let c = v[pos];
        pos = push_first(&mut out, &v, pos, line_start);
        proof {
            assert(pieces(s, line_start).drop_first() =~= tail);
            assert(out@ + pieces_html(tail) =~= before + (piece_html(
                first_piece(s, line_start).0,
            ) + pieces_html(tail)));
        }
        line_start = c == '\n';
    }
    assert(pieces_html(pieces(v@.skip(pos as int), line_start)) =~= Seq::empty());
    out
}

// ---------------------------------------------------------------------------
// Chunks
// ---------------------------------------------------------------------------

/// What Telegram takes in one message.
pub const MAX_MESSAGE_CHARS: usize = 4096;

/// A message rendered from the beginning of a text.
pub struct TelegramRenderChunk {
    pub html: String,
    /// How many bytes of the text are in it.
    pub source_boundary: usize,
}

/// Whether the HTML of the first `n` characters has at most `room` characters.
pub open spec fn fits(text: Seq<char>, n: int, room: int) -> bool {
    html_of(text.take(n)).len() <= room
}

/// What halving the range `low..=high` finds: `best`, or the last number tried that
/// fits.
pub open spec fn halved(text: Seq<char>, room: int, low: int, high: int, best: int) -> int
    decreases high - low + 1,
{
    if low > high {
        best
    } else {
        let mid = (low + high) / 2;
        if fits(text, mid, room) {
            halved(text, room, mid + 1, high, mid)
        } else if mid == 0 {
            best
        } else {
            halved(text, room, low, mid - 1, best)
        }
    }
}

/// The room that is left beside a suffix.
pub open spec fn room_beside(max: int, suffix: int) -> int {
    if suffix <= max {
        max - suffix
    } else {
        0
    }
}

/// How many characters of `text` go into one message.
pub open spec fn chunk_chars(text: Seq<char>, max: int, suffix: int) -> int {
    if html_of(text).len() <= max {
        text.len() as int
    } else {
        halved(text, room_beside(max, suffix), 0, text.len() as int, 0)
    }
}

/// The HTML of one message, which ends in `suffix` where the text goes on.
pub open spec fn chunk_html(text: Seq<char>, max: int, suffix: Seq<char>) -> Seq<char> {
    if html_of(text).len() <= max {
        html_of(text)
    } else {
        html_of(text.take(chunk_chars(text, max, suffix.len() as int))) + suffix
    }
}

proof fn lemma_empty_html(text: Seq<char>)
    requires
        text.len() == 0,
    ensures
        html_of(text).len() == 0,
{
    assert(escaped(text).len() == 0);
    assert(pieces(escaped(text), true).len() == 0);
}

proof fn lemma_halved(text: Seq<char>, room: int, low: int, high: int, best: int)
    requires
        room >= 0,
        0 <= low <= high + 1,
        high <= text.len(),
        best == if low == 0 {
            0
        } else {
            low - 1
        },
        fits(text, best, room),
        high == text.len() || !fits(text, high + 1, room),
    ensures
        0 <= halved(text, room, low, high, best) <= text.len(),
        fits(text, halved(text, room, low, high, best), room),
        halved(text, room, low, high, best) == text.len() || !fits(
            text,
            halved(text, room, low, high, best) + 1,
            room,
        ),
    decreases high - low + 1,
{
    if low <= high {
        let mid = (low + high) / 2;
        if fits(text, mid, room) {
            lemma_halved(text, room, mid + 1, high, mid);
        } else if mid == 0 {
            assert(best == 0);
        } else {
            lemma_halved(text, room, low, mid - 1, best);
        }
    }
}

/// What is cut off fits, and one more character would not: the cut is made at the
/// limit.
pub proof fn law_chunk_is_full(text: Seq<char>, max: int, suffix: int)
    requires
        0 <= max,
        0 <= suffix,
    ensures
        ({
            let n = chunk_chars(text, max, suffix);
            &&& 0 <= n <= text.len()
            &&& html_of(text).len() > max ==> {
                &&& n < text.len()
                &&& fits(text, n, room_beside(max, suffix))
                &&& !fits(text, n + 1, room_beside(max, suffix))
            }
        }),
{
    if html_of(text).len() > max {
        let room = room_beside(max, suffix);
        lemma_empty_html(text.take(0));
        lemma_halved(text, room, 0, text.len() as int, 0);
        assert(text.take(text.len() as int) == text);
    }
}

/// A message never has more characters than allowed.
pub proof fn law_chunk_fits(text: Seq<char>, max: int, suffix: Seq<char>)
    requires
        suffix.len() <= max,
    ensures
        chunk_html(text, max, suffix).len() <= max,
{
    law_chunk_is_full(text, max, suffix.len() as int);
}

/// Whether `c` means something in Markdown wherever it stands.
pub open spec fn is_mark(c: char) -> bool {
    c == '*' || c == '`' || c == '['
}

/// Whether `s` holds no Markdown: no mark, and no `#` at the start of a line. `line_start`
/// says whether a line starts where `s` does.
pub open spec fn is_plain(s: Seq<char>, line_start: bool) -> bool {
    forall|i: int|
        0 <= i < s.len() ==> !is_mark(#[trigger] s[i]) && (s[i] == '#' ==> if i == 0 {
            !line_start
        } else {
            s[i - 1] != '\n'
        })
}

proof fn lemma_plain_pieces(s: Seq<char>, line_start: bool)
    requires
        is_plain(s, line_start),
    ensures
        pieces_html(pieces(s, line_start)) == s,
    decreases s.len(),
{
    if s.len() > 0 {
        assert(!is_mark(s[0]));
        let rest = s.drop_first();
        assert forall|i: int| 0 <= i < rest.len() implies !is_mark(#[trigger] rest[i]) && (rest[i]
            == '#' ==> if i == 0 {
            s[0] != '\n'
        } else {
            rest[i - 1] != '\n'
        }) by {
            assert(rest[i] == s[i + 1]);
        }
        lemma_plain_pieces(rest, s[0] == '\n');
        let tail = pieces(rest, s[0] == '\n');
        assert(pieces(s, line_start).drop_first() =~= tail);
        assert(seq![s[0]] + rest =~= s);
    }
}

proof fn lemma_escaped_plain(s: Seq<char>)
    requires
        is_plain(s, true),
    ensures
        is_plain(escaped(s), true),
        s.len() > 0 ==> escaped(s).len() > 0,
        s.len() > 0 && escaped(s).last() == '\n' ==> s.last() == '\n',
    decreases s.len(),
{
    if s.len() > 0 {
        reveal_strlit("&amp;");
        reveal_strlit("&lt;");
        reveal_strlit("&gt;");
        let before = s.drop_last();
        assert forall|i: int| 0 <= i < before.len() implies !is_mark(#[trigger] before[i]) && (
        before[i] == '#' ==> if i == 0 {
            false
        } else {
            before[i - 1] != '\n'
        }) by {
            assert(before[i] == s[i]);
        }
        lemma_escaped_plain(before);
        assert(!is_mark(s[s.len() - 1]));
        let a = escaped(before);
        let e = escaped_char(s.last());
        assert forall|i: int| 0 <= i < escaped(s).len() implies !is_mark(#[trigger] escaped(s)[i])
            && (escaped(s)[i] == '#' ==> if i == 0 {
            false
        } else {
            escaped(s)[i - 1] != '\n'
        }) by {
            if i < a.len() {
                assert(escaped(s)[i] == a[i]);
                if i > 0 {
                    assert(escaped(s)[i - 1] == a[i - 1]);
                }
            } else {
                assert(escaped(s)[i] == e[i - a.len()]);
                if escaped(s)[i] == '#' {
                    assert(s.last() == '#' && i == a.len());
                    assert(s[s.len() - 1] == '#');
                    if i > 0 {
                        assert(escaped(s)[i - 1] == a.last());
                        assert(before.len() > 0);
                        assert(before.last() == s[s.len() - 2]);
                    }
                }
            }
        }
    }
}

/// Text without Markdown is only escaped.
pub proof fn law_plain_text_is_escaped(text: Seq<char>)
    requires
        is_plain(text, true),
    ensures
        html_of(text) == escaped(text),
{
    lemma_escaped_plain(text);
    lemma_plain_pieces(escaped(text), true);
}

proof fn lemma_one_char(text: Seq<char>)
    requires
        text.len() == 1,
    ensures
        html_of(text).len() <= 13,
{
    let c = text[0];
    assert(text.drop_last().len() == 0);
    assert(escaped(text.drop_last()) =~= Seq::empty());
    assert(escaped(text) =~= escaped_char(c));
    if !is_mark(c) && c != '#' {
        law_plain_text_is_escaped(text);
        reveal_strlit("&amp;");
        reveal_strlit("&lt;");
        reveal_strlit("&gt;");
    } else {
        let s = escaped(text);
        assert(s =~= seq![c]);
        let rest = s.drop_first();
        let p = first_piece(s, true);
        lemma_before_char(rest, '*');
        lemma_before_char(rest, '`');
        lemma_before_char(rest, ']');
        reveal_strlit("<code>");
        reveal_strlit("</code>");
        reveal_strlit("<b>");
        reveal_strlit("</b>");
        lemma_first_piece_shrinks(s, true);
        assert(p.1.len() == 0);
        assert(pieces(p.1, s[0] == '\n').len() == 0);
        assert(pieces(s, true) =~= seq![p.0]);
        assert(pieces(s, true).drop_first().len() == 0);
        assert(pieces_html(pieces(s, true).drop_first()) =~= Seq::empty());
        assert(pieces_html(pieces(s, true)) =~= piece_html(p.0));
        if c == '#' {
            lemma_leading(rest, '#');
            lemma_before_char(rest, '\n');
            let marked = dropped(rest, leading(rest, '#'));
            lemma_before_char(marked, '\n');
        }
    }
}

/// A message always takes some of the text, so that cutting it up comes to an end.
pub proof fn law_chunk_makes_progress(text: Seq<char>, max: int, suffix: int)
    requires
        text.len() > 0,
        0 <= suffix,
        13 <= max - suffix,
    ensures
        chunk_chars(text, max, suffix) > 0,
{
    law_chunk_is_full(text, max, suffix);
    if html_of(text).len() > max && chunk_chars(text, max, suffix) == 0 {
        lemma_one_char(text.take(1));
    }
}

/// A text cut into messages.
pub open spec fn chunks(text: Seq<char>) -> Seq<Seq<char>>
    decreases text.len(),
{
    let n = chunk_chars(text, MAX_MESSAGE_CHARS as int, 0);
    if text.len() == 0 || n <= 0 || n > text.len() {
        Seq::empty()
    } else {
        seq![text.take(n)] + chunks(text.skip(n))
    }
}

/// One text after the other.
pub open spec fn concatenated(parts: Seq<Seq<char>>) -> Seq<char>
    decreases parts.len(),
{
    if parts.len() == 0 {
        Seq::empty()
    } else {
        parts[0] + concatenated(parts.drop_first())
    }
}

/// The messages of a text hold all of it in order, and none of them is empty or too
/// long.
pub proof fn law_chunks_lose_nothing(text: Seq<char>)
    ensures
        concatenated(chunks(text)) == text,
        forall|i: int|
            0 <= i < chunks(text).len() ==> (#[trigger] chunks(text)[i]).len() > 0 && html_of(
                chunks(text)[i],
            ).len() <= MAX_MESSAGE_CHARS,
    decreases text.len(),
{
    if text.len() > 0 {
        let n = chunk_chars(text, MAX_MESSAGE_CHARS as int, 0);
        law_chunk_is_full(text, MAX_MESSAGE_CHARS as int, 0);
        law_chunk_makes_progress(text, MAX_MESSAGE_CHARS as int, 0);
        law_chunks_lose_nothing(text.skip(n));
        let rest = chunks(text.skip(n));
        assert(chunks(text).drop_first() =~= rest);
        assert(text.take(n) + text.skip(n) =~= text);
        assert(text.take(text.len() as int) =~= text);
        assert forall|i: int| 0 <= i < chunks(text).len() implies (#[trigger] chunks(text)[i]).len()
            > 0 && html_of(chunks(text)[i]).len() <= MAX_MESSAGE_CHARS by {
            if i > 0 {
                assert(chunks(text)[i] == rest[i - 1]);
            }
        }
    }
}

/// The HTML of the first `n` characters of `text`.
fn prefix_html(text: &str, n: usize) -> (r: String)
    requires
        n <= text@.len(),
    ensures
        r@ == html_of(text@.take(n as int)),
{
    let prefix = text.substring_char(0, n);
    assert(prefix@ =~= text@.take(n as int));
    markdown_to_telegram_html(prefix)
}

/// How many characters of `text`, whose HTML is too long for one message, go into
/// one beside a suffix.
fn cut_length(text: &str, max_chars: usize, suffix_chars: usize) -> (r: usize)
    requires
        html_of(text@).len() > max_chars,
    ensures
        r == chunk_chars(text@, max_chars as int, suffix_chars as int),
        r <= text@.len(),
{
    let available: usize = if suffix_chars <= max_chars {
        max_chars - suffix_chars
    } else {
        0
    };
    let total = text.unicode_len();
    let mut low: usize = 0;
    let mut high: usize = total;
    let mut best: usize = 0;
    let ghost n = chunk_chars(text@, max_chars as int, suffix_chars as int);
    while low <= high
        invariant_except_break
            low <= high + 1,
        invariant
            best <= total,
            high <= total,
            total == text@.len(),
            n == halved(text@, available as int, low as int, high as int, best as int),
        ensures
            n == best,
            best <= total,
        decreases high - low + 1,
    {
        let mid: usize = low + (high - low) / 2;
        assert(mid == (low + high) / 2);
        let candidate = prefix_html(text, mid);
        if candidate.as_str().unicode_len() <= available {
            best = mid;
            if mid == usize::MAX {
                assert(halved(text@, available as int, mid + 1, high as int, mid as int) == mid);
                break ;
            }
            low = mid + 1;
        } else if mid == 0 {
            break ;
        } else {
            high = mid - 1;
        }
    }
    best
}

/// The number of bytes of the first `max_chars` characters; of all of them where there are
/// fewer.
pub fn char_boundary_at(text: &str, max_chars: usize) -> (r: usize)
    ensures
        r == encode_utf8(
            text@.take(
                if max_chars <= text@.len() {
                    max_chars as int
                } else {
                    text@.len() as int
                },
            ),
        ).len(),
{
    let total = text.unicode_len();
    if max_chars >= total {
        assert(text@.take(text@.len() as int) =~= text@);
        return byte_len(text);
    }
    let prefix = text.substring_char(0, max_chars);
    assert(prefix@ =~= text@.take(max_chars as int));
    byte_len(prefix)
}

/// Renders the beginning of `text` as one message of at most `max_chars`
/// characters. Where the text goes on, the message ends in `truncated_suffix`.
pub fn render_telegram_chunk(text: &str, max_chars: usize, truncated_suffix: Option<&str>) -> (r:
    TelegramRenderChunk)
    ensures
        ({
            let suffix = match truncated_suffix {
                Some(s) => s@,
                None => Seq::<char>::empty(),
            };
            &&& r.html@ == chunk_html(text@, max_chars as int, suffix)
            &&& r.source_boundary == encode_utf8(
                text@.take(chunk_chars(text@, max_chars as int, suffix.len() as int)),
            ).len()
        }),
{
    let html = markdown_to_telegram_html(text);
    if html.as_str().unicode_len() <= max_chars {
        assert(text@.take(text@.len() as int) =~= text@);
        return TelegramRenderChunk { html, source_boundary: byte_len(text) };
    }
    let suffix = match truncated_suffix {
        Some(s) => s,
        None => "",
    };
    proof {
        if truncated_suffix is None {
            reveal_strlit("");
            assert(suffix@ =~= Seq::<char>::empty());
        }
    }
    let best = cut_length(text, max_chars, suffix.unicode_len());
    let mut html = prefix_html(text, best);
    html.push_str(suffix);
    TelegramRenderChunk { html, source_boundary: char_boundary_at(text, best) }
}

/// Renders the beginning of `text` as one message, with an ellipsis where it goes on.
pub fn truncate_for_telegram(text: &str) -> (r: TelegramRenderChunk)
    ensures
        r.html@ == chunk_html(text@, MAX_MESSAGE_CHARS as int, "..."@),
        r.source_boundary == encode_utf8(
            text@.take(chunk_chars(text@, MAX_MESSAGE_CHARS as int, "..."@.len() as int)),
        ).len(),
        r.html@.len() <= MAX_MESSAGE_CHARS,
{
    proof {
        reveal_strlit("...");
        law_chunk_fits(text@, MAX_MESSAGE_CHARS as int, "..."@);
    }
    render_telegram_chunk(text, MAX_MESSAGE_CHARS, Some("..."))
}

/// A text that does not fit into one message is cut before its end.
pub proof fn law_cut_leaves_rest(text: Seq<char>, max: int, suffix: int)
    requires
        0 <= max,
        0 <= suffix,
        html_of(text).len() > max,
    ensures
        encode_utf8(text.take(chunk_chars(text, max, suffix))).len() < encode_utf8(text).len(),
{
    law_chunk_is_full(text, max, suffix);
    lemma_encode_prefix_shorter(text, chunk_chars(text, max, suffix));
}

/// A message, and the messages with what did not go into it.
pub struct FirstAndRest {
    pub html: String,
    pub rest: Vec<String>,
}

/// Cuts `text` into messages.
pub fn split_message(text: &str) -> (r: Vec<String>)
    ensures
        r.deep_view() == chunks(text@),
{
    let mut out: Vec<String> = Vec::new();
    let mut remaining: &str = text;
    let ghost whole = chunks(text@);
    assert(out.deep_view() + chunks(remaining@) =~= whole);
    while !remaining.is_empty()
        invariant
            out.deep_view() + chunks(remaining@) == whole,
        decreases remaining@.len(),
    {
        let ghost was = out.deep_view();
        let total = remaining.unicode_len();
        let html = markdown_to_telegram_html(remaining);
        let n: usize = if html.as_str().unicode_len() <= MAX_MESSAGE_CHARS {
            total
        } else {
            cut_length(remaining, MAX_MESSAGE_CHARS, 0)
        };
        proof {
            law_chunk_makes_progress(remaining@, MAX_MESSAGE_CHARS as int, 0);
        }
        let ghost text_now = remaining@;
        let head = remaining.substring_char(0, n);
        let tail = remaining.substring_char(n, total);
        assert(head@ =~= text_now.take(n as int));
        assert(tail@ =~= text_now.skip(n as int));
        out.push(head.to_string());
        assert(out.deep_view() =~= was.push(head@));
        assert(out.deep_view() + chunks(tail@) =~= was + chunks(text_now));
        remaining = tail;
    }
    assert(chunks(remaining@) =~= Seq::empty());
    assert(out.deep_view() =~= whole);
    out
}

/// Renders the beginning of `text` as one message, and cuts what is left into
/// further ones.
pub fn edit_and_overflow(text: &str) -> (r: FirstAndRest)
    ensures
        r.html@ == chunk_html(text@, MAX_MESSAGE_CHARS as int, "..."@),
        r.rest.deep_view() == chunks(
            text@.skip(chunk_chars(text@, MAX_MESSAGE_CHARS as int, "..."@.len() as int)),
        ),
{
    let html = markdown_to_telegram_html(text);
    let total = text.unicode_len();
    if html.as_str().unicode_len() <= MAX_MESSAGE_CHARS {
        let rest: Vec<String> = Vec::new();
        assert(text@.skip(total as int).len() == 0);
        assert(rest.deep_view() =~= chunks(text@.skip(total as int)));
        return FirstAndRest { html, rest };
    }
    let n = cut_length(text, MAX_MESSAGE_CHARS, "...".unicode_len());
    let mut html = prefix_html(text, n);
    html.push_str("...");
    let tail = text.substring_char(n, total);
    assert(tail@ =~= text@.skip(n as int));
    FirstAndRest { html, rest: split_message(tail) }
}

// ---------------------------------------------------------------------------
// Shape of the output
// ---------------------------------------------------------------------------

/// Whether an entity stands at `i`: `&amp;`, `&lt;` or `&gt;`.
pub open spec fn entity_at(s: Seq<char>, i: int) -> bool {
    ||| i + 4 < s.len() && s[i] == '&' && s[i + 1] == 'a' && s[i + 2] == 'm' && s[i + 3] == 'p'
        && s[i + 4] == ';'
    ||| i + 3 < s.len() && s[i] == '&' && (s[i + 1] == 'l' || s[i + 1] == 'g') && s[i + 2] == 't'
        && s[i + 3] == ';'
}

/// Whether every `&` in `s` begins an entity.
pub open spec fn entities_are_whole(s: Seq<char>) -> bool {
    forall|i: int| 0 <= i < s.len() && #[trigger] s[i] == '&' ==> entity_at(s, i)
}

/// Whether neither `<` nor `>` stands in `s`.
pub open spec fn free_of_angles(s: Seq<char>) -> bool {
    forall|i: int| 0 <= i < s.len() ==> #[trigger] s[i] != '<' && s[i] != '>'
}

/// Whether `s` is text in HTML: neither `<` nor `>` stands in it, and every `&` begins an
/// entity.
pub open spec fn is_html_text(s: Seq<char>) -> bool {
    free_of_angles(s) && entities_are_whole(s)
}

/// Whether `c` can stand in an entity behind its `&`.
pub open spec fn is_entity_char(c: char) -> bool {
    c == 'a' || c == 'm' || c == 'p' || c == 'l' || c == 'g' || c == 't' || c == ';'
}

/// Whether a stretch holds no markup but its own tags. What stands between tags is text in
/// HTML by itself; an entity outside of them is a row of stretches.
pub open spec fn piece_is_clean(p: Piece) -> bool {
    match p {
        Piece::Plain(t) => free_of_angles(t),
        Piece::Bold(t) | Piece::Italic(t) | Piece::Code(t) | Piece::Block(t) => is_html_text(t),
        Piece::Link { url, text } => is_html_text(url) && is_html_text(text),
    }
}

proof fn lemma_escaped_is_text(s: Seq<char>)
    ensures
        is_html_text(escaped(s)),
    decreases s.len(),
{
    if s.len() > 0 {
        reveal_strlit("&amp;");
        reveal_strlit("&lt;");
        reveal_strlit("&gt;");
        lemma_escaped_is_text(s.drop_last());
        let e = escaped_char(s.last());
        assert(is_html_text(e));
        lemma_text_concat(escaped(s.drop_last()), e);
    }
}

proof fn lemma_entities_concat(a: Seq<char>, b: Seq<char>)
    requires
        entities_are_whole(a),
        entities_are_whole(b),
    ensures
        entities_are_whole(a + b),
{
    let s = a + b;
    assert forall|i: int| 0 <= i < s.len() && #[trigger] s[i] == '&' implies entity_at(s, i) by {
        if i < a.len() {
            assert(a[i] == '&');
            assert(entity_at(a, i));
        } else {
            assert(b[i - a.len()] == '&');
            assert(entity_at(b, i - a.len()));
        }
    }
}

proof fn lemma_text_concat(a: Seq<char>, b: Seq<char>)
    requires
        is_html_text(a),
        is_html_text(b),
    ensures
        is_html_text(a + b),
{
    lemma_entities_concat(a, b);
    let s = a + b;
    assert forall|i: int| 0 <= i < s.len() implies #[trigger] s[i] != '<' && s[i] != '>' by {
        if i < a.len() {
            assert(s[i] == a[i]);
        } else {
            assert(s[i] == b[i - a.len()]);
        }
    }
}

proof fn lemma_dropped_text(s: Seq<char>, n: int)
    requires
        is_html_text(s),
        0 <= n,
    ensures
        is_html_text(dropped(s, n)),
{
    let t = dropped(s, n);
    assert forall|i: int| 0 <= i < t.len() implies #[trigger] t[i] != '<' && t[i] != '>' by {
        assert(t[i] == s[i + n]);
    }
    assert forall|i: int| 0 <= i < t.len() && #[trigger] t[i] == '&' implies entity_at(t, i) by {
        assert(s[i + n] == '&');
        assert(entity_at(s, i + n));
    }
}

/// A text can be cut where no entity is cut.
proof fn lemma_take_text(s: Seq<char>, n: int)
    requires
        is_html_text(s),
        0 <= n <= s.len(),
        n < s.len() ==> !is_entity_char(s[n]),
    ensures
        is_html_text(s.take(n)),
{
    let t = s.take(n);
    assert forall|i: int| 0 <= i < t.len() implies #[trigger] t[i] != '<' && t[i] != '>' by {
        assert(t[i] == s[i]);
    }
    assert forall|i: int| 0 <= i < t.len() && #[trigger] t[i] == '&' implies entity_at(t, i) by {
        assert(s[i] == '&');
        assert(entity_at(s, i));
    }
}

proof fn lemma_first_piece_clean(s: Seq<char>, line_start: bool)
    requires
        s.len() > 0,
        is_html_text(s),
    ensures
        piece_is_clean(first_piece(s, line_start).0),
        first_piece(s, line_start).0 matches Piece::Plain(t) ==> t == seq![s[0]]
            || entities_are_whole(t),
        is_html_text(first_piece(s, line_start).1),
{
    let rest = s.drop_first();
    assert(rest =~= dropped(s, 1));
    lemma_dropped_text(s, 1);
    lemma_dropped_text(s, 2);
    lemma_dropped_text(s, 3);
    assert(s[0] != '<' && s[0] != '>');
    if s[0] == '*' || s[0] == '`' {
        let body = dropped(s, 2);
        lemma_before_pair(body, s[0]);
        lemma_take_text(body, before_pair(body, s[0]));
        lemma_dropped_text(body, before_pair(body, s[0]) + 2);
        lemma_before_char(rest, s[0]);
        lemma_take_text(rest, before_char(rest, s[0]));
        lemma_dropped_text(rest, before_char(rest, s[0]) + 1);
        let tagged = dropped(s, 3);
        lemma_before_char(tagged, '\n');
        let block = dropped(tagged, before_char(tagged, '\n') + 1);
        lemma_dropped_text(tagged, before_char(tagged, '\n') + 1);
        let n = before_pair(block, '`');
        lemma_before_pair(block, '`');
        lemma_take_text(block, n);
        lemma_trim_back_prefix(block.take(n), CharSet::Whitespace);
        lemma_take_text(
            block.take(n),
            trim_back(block.take(n), CharSet::Whitespace).len() as int,
        );
        lemma_dropped_text(block, n + 2);
        let after = dropped(block, n + 2);
        if after.len() > 0 {
            lemma_dropped_text(after, 1);
            assert(after.drop_first() =~= dropped(after, 1));
        }
    } else if s[0] == '#' {
        lemma_leading(rest, '#');
        let marked = dropped(rest, leading(rest, '#'));
        lemma_dropped_text(rest, leading(rest, '#'));
        if marked.len() > 0 {
            lemma_dropped_text(marked, 1);
            assert(marked.drop_first() =~= dropped(marked, 1));
        }
        let body = if begins(marked, ' ') {
            marked.drop_first()
        } else {
            marked
        };
        lemma_before_char(body, '\n');
        lemma_take_text(body, before_char(body, '\n'));
        lemma_dropped_text(body, before_char(body, '\n'));
    } else if s[0] == '[' {
        let n = before_char(rest, ']');
        lemma_before_char(rest, ']');
        lemma_take_text(rest, n);
        lemma_dropped_text(rest, n + 1);
        let after = dropped(rest, n + 1);
        if after.len() > 0 {
            lemma_dropped_text(after, 1);
            let target = after.drop_first();
            assert(target =~= dropped(after, 1));
            lemma_before_char(target, ')');
            lemma_take_text(target, before_char(target, ')'));
            lemma_dropped_text(target, before_char(target, ')') + 1);
        }
        assert(is_html_text(seq!['[']) && is_html_text(seq![']']));
        lemma_text_concat(seq!['['], rest.take(n));
        lemma_text_concat(seq!['['] + rest.take(n), seq![']']);
    }
}

proof fn lemma_pieces_clean(s: Seq<char>, line_start: bool)
    requires
        is_html_text(s),
    ensures
        forall|i: int|
            0 <= i < pieces(s, line_start).len() ==> piece_is_clean(
                #[trigger] pieces(s, line_start)[i],
            ),
    decreases s.len(),
{
    if s.len() > 0 {
        let (p, rest) = first_piece(s, line_start);
        lemma_first_piece_shrinks(s, line_start);
        lemma_first_piece_clean(s, line_start);
        lemma_pieces_clean(rest, s[0] == '\n');
        let tail = pieces(rest, s[0] == '\n');
        assert forall|i: int| 0 <= i < pieces(s, line_start).len() implies piece_is_clean(
            #[trigger] pieces(s, line_start)[i],
        ) by {
            if i > 0 {
                assert(pieces(s, line_start)[i] == tail[i - 1]);
            }
        }
    }
}

proof fn lemma_piece_entities(p: Piece)
    requires
        piece_is_clean(p),
        p matches Piece::Plain(t) ==> entities_are_whole(t),
    ensures
        entities_are_whole(piece_html(p)),
{
    reveal_strlit("<b>");
    reveal_strlit("</b>");
    reveal_strlit("<i>");
    reveal_strlit("</i>");
    reveal_strlit("<code>");
    reveal_strlit("</code>");
    reveal_strlit("<pre>");
    reveal_strlit("</pre>");
    reveal_strlit("<a href=\"");
    reveal_strlit("\">");
    reveal_strlit("</a>");
    match p {
        Piece::Plain(t) => {},
        Piece::Bold(t) => lemma_tagged_entities("<b>"@, t, "</b>"@),
        Piece::Italic(t) => lemma_tagged_entities("<i>"@, t, "</i>"@),
        Piece::Code(t) => lemma_tagged_entities("<code>"@, t, "</code>"@),
        Piece::Block(t) => lemma_tagged_entities("<pre>"@, t, "</pre>"@),
        Piece::Link { url, text } => {
            lemma_tagged_entities("<a href=\""@, url, "\">"@);
            lemma_tagged_entities("<a href=\""@ + url + "\">"@, text, "</a>"@);
        },
    }
}

proof fn lemma_tagged_entities(open: Seq<char>, t: Seq<char>, close: Seq<char>)
    requires
        entities_are_whole(open),
        entities_are_whole(t),
        entities_are_whole(close),
    ensures
        entities_are_whole(open + t + close),
{
    lemma_entities_concat(open, t);
    lemma_entities_concat(open + t, close);
}

/// A character that means nothing in Markdown is followed by the output of the rest.
proof fn lemma_plain_head(s: Seq<char>, line_start: bool)
    requires
        s.len() > 0,
        !is_mark(s[0]) && s[0] != '#',
    ensures
        pieces_html(pieces(s, line_start)) == seq![s[0]] + pieces_html(
            pieces(s.drop_first(), s[0] == '\n'),
        ),
{
    assert(pieces(s, line_start).drop_first() =~= pieces(s.drop_first(), s[0] == '\n'));
}

proof fn lemma_html_entities(s: Seq<char>, line_start: bool)
    requires
        is_html_text(s),
    ensures
        entities_are_whole(pieces_html(pieces(s, line_start))),
    decreases s.len(),
{
    if s.len() > 0 {
        let (p, rest) = first_piece(s, line_start);
        lemma_first_piece_shrinks(s, line_start);
        lemma_first_piece_clean(s, line_start);
        lemma_html_entities(rest, s[0] == '\n');
        let html = pieces_html(pieces(s, line_start));
        let tail = pieces_html(pieces(rest, s[0] == '\n'));
        assert(pieces(s, line_start).drop_first() =~= pieces(rest, s[0] == '\n'));
        assert(html == piece_html(p) + tail);
        if s[0] == '&' {
            assert(entity_at(s, 0));
            let s1 = s.drop_first();
            let s2 = s1.drop_first();
            let s3 = s2.drop_first();
            assert(s1[0] == s[1] && s2[0] == s[2] && s3[0] == s[3]);
            lemma_plain_head(s, line_start);
            lemma_plain_head(s1, false);
            lemma_plain_head(s2, false);
            lemma_plain_head(s3, false);
            if s[3] == 'p' {
                let s4 = s3.drop_first();
                assert(s4[0] == s[4]);
                lemma_plain_head(s4, false);
            }
            assert(entity_at(html, 0));
            assert forall|i: int| 0 <= i < html.len() && #[trigger] html[i] == '&' implies entity_at(
                html,
                i,
            ) by {
                if i > 0 {
                    assert(tail[i - 1] == '&');
                    assert(entity_at(tail, i - 1));
                }
            }
        } else {
            lemma_piece_entities(p);
            lemma_entities_concat(piece_html(p), tail);
        }
    }
}

/// The output is a row of stretches, none of which holds a `<` or `>` but those of
/// its own opening and closing tag: every tag is closed, and none stands inside
/// another, whatever the text. Every `&` begins `&amp;`, `&lt;` or `&gt;`.
pub proof fn law_tags_are_closed(text: Seq<char>)
    ensures
        html_of(text) == pieces_html(pieces(escaped(text), true)),
        forall|i: int|
            0 <= i < pieces(escaped(text), true).len() ==> piece_is_clean(
                #[trigger] pieces(escaped(text), true)[i],
            ),
        entities_are_whole(html_of(text)),
{
    lemma_escaped_is_text(text);
    lemma_pieces_clean(escaped(text), true);
    lemma_html_entities(escaped(text), true);
}

// ---------------------------------------------------------------------------
// Lines
// ---------------------------------------------------------------------------

/// Whether the mark that `s` begins with, if any, is closed in `s`. A heading needs no
/// closing: it ends with its line.
pub open spec fn first_is_closed(s: Seq<char>) -> bool {
    let c = s[0];
    let rest = s.drop_first();
    if c == '*' && begins(rest, '*') {
        before_pair(dropped(s, 2), '*') < dropped(s, 2).len()
    } else if c == '*' {
        before_char(rest, '*') < rest.len()
    } else if c == '`' && begins(rest, '`') && begins(dropped(s, 2), '`') {
        let tagged = dropped(s, 3);
        let body = dropped(tagged, before_char(tagged, '\n') + 1);
        before_char(tagged, '\n') < tagged.len() && before_pair(body, '`') < body.len()
    } else if c == '`' && begins(rest, '`') {
        before_pair(dropped(s, 2), '`') < dropped(s, 2).len()
    } else if c == '`' {
        before_char(rest, '`') < rest.len()
    } else if c == '[' {
        let n = before_char(rest, ']');
        let after = dropped(rest, n + 1);
        n < rest.len() && (begins(after, '(') ==> before_char(after.drop_first(), ')')
            < after.drop_first().len())
    } else {
        true
    }
}

/// Whether every mark in `s` is closed in `s`.
pub open spec fn marks_are_closed(s: Seq<char>, line_start: bool) -> bool
    decreases s.len(),
{
    s.len() > 0 ==> {
        let rest = first_piece(s, line_start).1;
        first_is_closed(s) && (rest.len() < s.len() ==> marks_are_closed(
            rest,
            s[0] == '\n',
        ))
    }
}

proof fn lemma_before_char_append(s: Seq<char>, x: Seq<char>, c: char)
    requires
        before_char(s, c) < s.len() || begins(x, c),
    ensures
        before_char(s + x, c) == before_char(s, c),
    decreases s.len(),
{
    if s.len() == 0 {
        assert(s + x =~= x);
    } else if s[0] != c {
        assert((s + x).drop_first() =~= s.drop_first() + x);
        lemma_before_char_append(s.drop_first(), x, c);
    }
}

proof fn lemma_before_pair_append(s: Seq<char>, x: Seq<char>, c: char)
    requires
        before_pair(s, c) < s.len(),
    ensures
        before_pair(s + x, c) == before_pair(s, c),
    decreases s.len(),
{
    lemma_before_pair(s, c);
    if !(s.len() >= 2 && s[0] == c && s[1] == c) {
        assert((s + x).drop_first() =~= s.drop_first() + x);
        lemma_before_pair(s.drop_first(), c);
        lemma_before_pair_append(s.drop_first(), x, c);
    }
}

proof fn lemma_leading_append(s: Seq<char>, x: Seq<char>, c: char)
    requires
        !begins(x, c),
    ensures
        leading(s + x, c) == leading(s, c),
    decreases s.len(),
{
    if s.len() == 0 {
        assert(s + x =~= x);
    } else if s[0] == c {
        assert((s + x).drop_first() =~= s.drop_first() + x);
        lemma_leading_append(s.drop_first(), x, c);
    }
}

proof fn lemma_dropped_append(s: Seq<char>, x: Seq<char>, n: int)
    requires
        0 <= n <= s.len(),
    ensures
        dropped(s + x, n) == dropped(s, n) + x,
        (s + x).take(n) == s.take(n),
{
    assert(dropped(s + x, n) =~= dropped(s, n) + x);
    assert((s + x).take(n) =~= s.take(n));
}

/// A stretch whose mark is closed does not depend on the lines that follow.
proof fn lemma_first_piece_append(s: Seq<char>, x: Seq<char>, line_start: bool)
    requires
        s.len() > 0,
        begins(x, '\n'),
        first_is_closed(s),
    ensures
        first_piece(s + x, line_start).0 == first_piece(s, line_start).0,
        first_piece(s + x, line_start).1 == first_piece(s, line_start).1 + x,
{
    let c = s[0];
    let rest = s.drop_first();
    let longer = (s + x).drop_first();
    assert(longer =~= rest + x);
    assert((s + x)[0] == c);
    lemma_first_piece_shrinks(s, line_start);
    if c == '*' || c == '`' {
        if begins(rest, c) {
            lemma_dropped_append(s, x, 2);
            let body = dropped(s, 2);
            assert(begins(body + x, '`') == begins(body, '`'));
            if c == '`' && begins(body, '`') {
                lemma_dropped_append(s, x, 3);
                let tagged = dropped(s, 3);
                let k = before_char(tagged, '\n');
                lemma_before_char(tagged, '\n');
                lemma_before_char_append(tagged, x, '\n');
                lemma_dropped_append(tagged, x, k + 1);
                let block = dropped(tagged, k + 1);
                let n = before_pair(block, '`');
                lemma_before_pair(block, '`');
                lemma_before_pair_append(block, x, '`');
                lemma_dropped_append(block, x, n);
                lemma_dropped_append(block, x, n + 2);
                let after = dropped(block, n + 2);
                assert(begins(after + x, '`') == begins(after, '`'));
                if begins(after, '`') {
                    assert((after + x).drop_first() =~= after.drop_first() + x);
                }
            } else {
                let n = before_pair(body, c);
                lemma_before_pair(body, c);
                lemma_before_pair_append(body, x, c);
                lemma_dropped_append(body, x, n);
                lemma_dropped_append(body, x, n + 2);
            }
        } else {
            assert(!begins(longer, c));
            let n = before_char(rest, c);
            lemma_before_char(rest, c);
            lemma_before_char_append(rest, x, c);
            lemma_dropped_append(rest, x, n);
            lemma_dropped_append(rest, x, n + 1);
        }
    } else if c == '#' && line_start {
        let k = leading(rest, '#');
        lemma_leading(rest, '#');
        lemma_leading_append(rest, x, '#');
        lemma_dropped_append(rest, x, k);
        let marked = dropped(rest, k);
        assert(begins(marked + x, ' ') == begins(marked, ' '));
        if begins(marked, ' ') {
            assert((marked + x).drop_first() =~= marked.drop_first() + x);
        }
        let body = if begins(marked, ' ') {
            marked.drop_first()
        } else {
            marked
        };
        let n = before_char(body, '\n');
        lemma_before_char(body, '\n');
        lemma_before_char_append(body, x, '\n');
        lemma_dropped_append(body, x, n);
    } else if c == '[' {
        let n = before_char(rest, ']');
        lemma_before_char(rest, ']');
        lemma_before_char_append(rest, x, ']');
        lemma_dropped_append(rest, x, n);
        lemma_dropped_append(rest, x, n + 1);
        let after = dropped(rest, n + 1);
        assert(begins(after + x, '(') == begins(after, '('));
        if begins(after, '(') {
            let target = after.drop_first();
            assert((after + x).drop_first() =~= target + x);
            let m = before_char(target, ')');
            lemma_before_char(target, ')');
            lemma_before_char_append(target, x, ')');
            lemma_dropped_append(target, x, m);
            lemma_dropped_append(target, x, m + 1);
        }
    }
}

proof fn lemma_pieces_append(s: Seq<char>, x: Seq<char>, line_start: bool)
    requires
        begins(x, '\n'),
        marks_are_closed(s, line_start),
    ensures
        pieces_html(pieces(s + x, line_start)) == pieces_html(pieces(s, line_start)) + seq!['\n']
            + pieces_html(pieces(x.drop_first(), true)),
    decreases s.len(),
{
    if s.len() == 0 {
        assert(s + x =~= x);
        lemma_plain_head(x, line_start);
        assert(pieces_html(pieces(s, line_start)) + seq!['\n'] =~= seq!['\n']);
    } else {
        let (p, rest) = first_piece(s, line_start);
        lemma_first_piece_shrinks(s, line_start);
        lemma_first_piece_append(s, x, line_start);
        lemma_pieces_append(rest, x, s[0] == '\n');
        let tail = pieces(rest, s[0] == '\n');
        let longer = pieces(rest + x, s[0] == '\n');
        assert((s + x)[0] == s[0]);
        assert(pieces(s, line_start).drop_first() =~= tail);
        assert(pieces(s + x, line_start).drop_first() =~= longer);
        let after = pieces_html(pieces(x.drop_first(), true));
        assert(piece_html(p) + (pieces_html(tail) + seq!['\n'] + after) =~= piece_html(p)
            + pieces_html(tail) + seq!['\n'] + after);
    }
}

proof fn lemma_escaped_concat(a: Seq<char>, b: Seq<char>)
    ensures
        escaped(a + b) == escaped(a) + escaped(b),
    decreases b.len(),
{
    if b.len() == 0 {
        assert(a + b =~= a);
        assert(escaped(a) + escaped(b) =~= escaped(a));
    } else {
        assert((a + b).drop_last() =~= a + b.drop_last());
        lemma_escaped_concat(a, b.drop_last());
        assert(escaped(a) + (escaped(b.drop_last()) + escaped_char(b.last())) =~= escaped(a)
            + escaped(b.drop_last()) + escaped_char(b.last()));
    }
}

/// Text is rendered line by line: what stands before a line break is rendered by itself,
/// and so is what stands after it, unless a mark is left open before the break.
pub proof fn law_lines_are_rendered_apart(before: Seq<char>, after: Seq<char>)
    requires
        marks_are_closed(escaped(before), true),
    ensures
        html_of(before + seq!['\n'] + after) == html_of(before) + seq!['\n'] + html_of(after),
{
    let x = seq!['\n'] + escaped(after);
    lemma_escaped_concat(before + seq!['\n'], after);
    lemma_escaped_concat(before, seq!['\n']);
    assert(seq!['\n'].drop_last().len() == 0);
    assert(escaped(seq!['\n'].drop_last()) =~= Seq::<char>::empty());
    assert(escaped(seq!['\n']) =~= seq!['\n']);
    assert(escaped(before + seq!['\n'] + after) =~= escaped(before) + x);
    assert(x.drop_first() =~= escaped(after));
    lemma_pieces_append(escaped(before), x, true);
}

proof fn lemma_unmarked_is_closed(s: Seq<char>, line_start: bool)
    requires
        forall|i: int| 0 <= i < s.len() ==> !is_mark(#[trigger] s[i]),
    ensures
        marks_are_closed(s, line_start),
    decreases s.len(),
{
    if s.len() > 0 {
        assert(!is_mark(s[0]));
        lemma_first_piece_shrinks(s, line_start);
        let rest = first_piece(s, line_start).1;
        let tail = s.drop_first();
        lemma_leading(tail, '#');
        let marked = dropped(tail, leading(tail, '#'));
        let body = if begins(marked, ' ') {
            marked.drop_first()
        } else {
            marked
        };
        lemma_before_char(body, '\n');
        assert(rest =~= s.skip(s.len() - rest.len()));
        assert forall|i: int| 0 <= i < rest.len() implies !is_mark(#[trigger] rest[i]) by {
            assert(rest[i] == s[i + s.len() - rest.len()]);
        }
        lemma_unmarked_is_closed(rest, s[0] == '\n');
    }
}

/// Lines without `*`, backticks and `[` leave nothing open, whether or not they are headings.
pub proof fn law_unmarked_lines_leave_nothing_open(text: Seq<char>)
    requires
        forall|i: int| 0 <= i < text.len() ==> !is_mark(#[trigger] text[i]),
    ensures
        marks_are_closed(escaped(text), true),
{
    lemma_escaped_unmarked(text);
    lemma_unmarked_is_closed(escaped(text), true);
}

proof fn lemma_escaped_unmarked(s: Seq<char>)
    requires
        forall|i: int| 0 <= i < s.len() ==> !is_mark(#[trigger] s[i]),
    ensures
        forall|i: int| 0 <= i < escaped(s).len() ==> !is_mark(#[trigger] escaped(s)[i]),
    decreases s.len(),
{
    if s.len() > 0 {
        reveal_strlit("&amp;");
        reveal_strlit("&lt;");
        reveal_strlit("&gt;");
        lemma_escaped_unmarked(s.drop_last());
        assert(!is_mark(s[s.len() - 1]));
        let a = escaped(s.drop_last());
        let e = escaped_char(s.last());
        assert forall|i: int| 0 <= i < escaped(s).len() implies !is_mark(
            #[trigger] escaped(s)[i],
        ) by {
            if i < a.len() {
                assert(escaped(s)[i] == a[i]);
            } else {
                assert(escaped(s)[i] == e[i - a.len()]);
            }
        }
    }
}

// ---------------------------------------------------------------------------
// What each mark means
// ---------------------------------------------------------------------------

/// What a browser shows for text in HTML: an entity stands for one character.
pub open spec fn shown_text(s: Seq<char>) -> Seq<char>
    decreases s.len(),
{
    if s.len() == 0 {
        Seq::empty()
    } else if s.len() >= 5 && s.take(5) == "&amp;"@ {
        seq!['&'] + shown_text(s.skip(5))
    } else if s.len() >= 4 && s.take(4) == "&lt;"@ {
        seq!['<'] + shown_text(s.skip(4))
    } else if s.len() >= 4 && s.take(4) == "&gt;"@ {
        seq!['>'] + shown_text(s.skip(4))
    } else {
        seq![s[0]] + shown_text(s.skip(1))
    }
}

/// Escaped text is shown as the text that it was made of, whatever stands in it, and each
/// character is escaped by itself.
pub proof fn law_escaped_text_is_shown(a: Seq<char>, b: Seq<char>)
    ensures
        shown_text(escaped(a)) == a,
        escaped(a + b) == escaped(a) + escaped(b),
        free_of_angles(escaped(a)) && entities_are_whole(escaped(a)),
    decreases a.len(),
{
    lemma_escaped_concat(a, b);
    lemma_escaped_is_text(a);
    if a.len() > 0 {
        let c = a[0];
        let rest = a.drop_first();
        law_escaped_text_is_shown(rest, b);
        let one = seq![c];
        assert(a =~= one + rest);
        lemma_escaped_concat(one, rest);
        assert(one.drop_last().len() == 0);
        assert(escaped(one.drop_last()) =~= Seq::<char>::empty());
        assert(escaped(one) =~= escaped_char(c));
        let s = escaped(a);
        let e = escaped_char(c);
        reveal_strlit("&amp;");
        reveal_strlit("&lt;");
        reveal_strlit("&gt;");
        assert(s == e + escaped(rest));
        assert(s.skip(e.len() as int) =~= escaped(rest));
        assert(s.take(e.len() as int) =~= e);
        assert(s[0] == e[0]);
        if c == '&' {
            assert(shown_text(s) == seq!['&'] + shown_text(escaped(rest)));
        } else if c == '<' {
            assert(s.take(5)[1] == 'l' || s.len() < 5) by {
                assert(s[1] == e[1]);
            }
            assert("&amp;"@[1] == 'a');
            assert(shown_text(s) == seq!['<'] + shown_text(escaped(rest)));
        } else if c == '>' {
            assert(s[1] == e[1]);
            if s.len() >= 5 {
                assert(s.take(5)[1] == 'g');
            }
            assert(s.take(4)[1] == 'g');
            assert("&amp;"@[1] == 'a' && "&lt;"@[1] == 'l');
            assert(shown_text(s) == seq!['>'] + shown_text(escaped(rest)));
        } else {
            if s.len() >= 5 {
                assert(s.take(5)[0] == c);
            }
            if s.len() >= 4 {
                assert(s.take(4)[0] == c);
            }
            assert("&amp;"@[0] == '&' && "&lt;"@[0] == '&' && "&gt;"@[0] == '&');
            assert(shown_text(s) == seq![c] + shown_text(escaped(rest)));
        }
    }
}

/// The output of a source, where `line_start` says whether a line starts there.
pub open spec fn output(s: Seq<char>, line_start: bool) -> Seq<char> {
    pieces_html(pieces(s, line_start))
}

proof fn lemma_output_step(s: Seq<char>, line_start: bool)
    requires
        s.len() > 0,
    ensures
        output(s, line_start) == piece_html(first_piece(s, line_start).0) + output(
            first_piece(s, line_start).1,
            s[0] == '\n',
        ),
{
    lemma_first_piece_shrinks(s, line_start);
    assert(pieces(s, line_start).drop_first() =~= pieces(
        first_piece(s, line_start).1,
        s[0] == '\n',
    ));
}

proof fn lemma_output_inside_line(s: Seq<char>)
    requires
        s.len() > 0 ==> s[0] != '#',
    ensures
        output(s, false) == output(s, true),
{
    if s.len() > 0 {
        lemma_output_step(s, false);
        lemma_output_step(s, true);
    }
}

proof fn lemma_output_after_plain(p: Seq<char>, x: Seq<char>, line_start: bool)
    requires
        is_plain(p, line_start),
    ensures
        output(p + x, line_start) == p + output(
            x,
            if p.len() == 0 {
                line_start
            } else {
                p.last() == '\n'
            },
        ),
    decreases p.len(),
{
    if p.len() == 0 {
        assert(p + x =~= x);
        assert(p + output(x, line_start) =~= output(x, line_start));
    } else {
        let s = p + x;
        let rest = p.drop_first();
        assert(!is_mark(p[0]) && s[0] == p[0]);
        assert(s.drop_first() =~= rest + x);
        assert forall|i: int| 0 <= i < rest.len() implies !is_mark(#[trigger] rest[i]) && (rest[i]
            == '#' ==> if i == 0 {
            p[0] != '\n'
        } else {
            rest[i - 1] != '\n'
        }) by {
            assert(rest[i] == p[i + 1]);
        }
        lemma_output_step(s, line_start);
        lemma_output_after_plain(rest, x, p[0] == '\n');
        assert(seq![p[0]] + rest =~= p);
        let end = if rest.len() == 0 {
            p[0] == '\n'
        } else {
            rest.last() == '\n'
        };
        assert(end == (p.last() == '\n'));
        assert(seq![p[0]] + (rest + output(x, end)) =~= p + output(x, end));
    }
}

proof fn lemma_escaped_lacks(s: Seq<char>, c: char)
    requires
        forall|i: int| 0 <= i < s.len() ==> #[trigger] s[i] != c,
        c != '&' && !is_entity_char(c),
    ensures
        forall|i: int| 0 <= i < escaped(s).len() ==> #[trigger] escaped(s)[i] != c,
    decreases s.len(),
{
    if s.len() > 0 {
        reveal_strlit("&amp;");
        reveal_strlit("&lt;");
        reveal_strlit("&gt;");
        let before = s.drop_last();
        assert forall|i: int| 0 <= i < before.len() implies #[trigger] before[i] != c by {
            assert(before[i] == s[i]);
        }
        lemma_escaped_lacks(before, c);
        assert(s[s.len() - 1] != c);
        let a = escaped(before);
        let e = escaped_char(s.last());
        assert forall|i: int| 0 <= i < escaped(s).len() implies #[trigger] escaped(s)[i] != c by {
            if i < a.len() {
                assert(escaped(s)[i] == a[i]);
            } else {
                assert(escaped(s)[i] == e[i - a.len()]);
            }
        }
    }
}

proof fn lemma_escaped_as_is(s: Seq<char>)
    requires
        forall|i: int| 0 <= i < s.len() ==> #[trigger] s[i] != '&' && s[i] != '<' && s[i] != '>',
    ensures
        escaped(s) == s,
    decreases s.len(),
{
    if s.len() > 0 {
        let before = s.drop_last();
        assert forall|i: int| 0 <= i < before.len() implies #[trigger] before[i] != '&' && before[i]
            != '<' && before[i] != '>' by {
            assert(before[i] == s[i]);
        }
        lemma_escaped_as_is(before);
        assert(s[s.len() - 1] != '&' && s[s.len() - 1] != '<' && s[s.len() - 1] != '>');
        assert(before + seq![s.last()] =~= s);
    } else {
        assert(escaped(s) =~= s);
    }
}

proof fn lemma_escaped_first(s: Seq<char>)
    requires
        s.len() > 0,
    ensures
        escaped(s).len() > 0,
        escaped(s)[0] == if s[0] == '<' || s[0] == '>' {
            '&'
        } else {
            s[0]
        },
        escaped(s).last() == if s.last() == '&' || s.last() == '<' || s.last() == '>' {
            ';'
        } else {
            s.last()
        },
    decreases s.len(),
{
    reveal_strlit("&amp;");
    reveal_strlit("&lt;");
    reveal_strlit("&gt;");
    if s.len() == 1 {
        assert(escaped(s.drop_last()) =~= Seq::<char>::empty());
        assert(escaped(s) =~= escaped_char(s[0]));
    } else {
        lemma_escaped_first(s.drop_last());
        assert(s.drop_last()[0] == s[0]);
    }
}

proof fn lemma_before_char_at(a: Seq<char>, c: char, b: Seq<char>)
    requires
        forall|i: int| 0 <= i < a.len() ==> #[trigger] a[i] != c,
    ensures
        before_char(a + seq![c] + b, c) == a.len(),
        before_char(a, c) == a.len(),
    decreases a.len(),
{
    let s = a + seq![c] + b;
    if a.len() > 0 {
        assert(a[0] != c && s[0] == a[0]);
        let rest = a.drop_first();
        assert forall|i: int| 0 <= i < rest.len() implies #[trigger] rest[i] != c by {
            assert(rest[i] == a[i + 1]);
        }
        assert(s.drop_first() =~= rest + seq![c] + b);
        lemma_before_char_at(rest, c, b);
    } else {
        assert(s[0] == c);
    }
}

proof fn lemma_before_pair_at(a: Seq<char>, c: char, b: Seq<char>)
    requires
        forall|i: int| 0 <= i < a.len() ==> #[trigger] a[i] != c,
    ensures
        before_pair(a + seq![c, c] + b, c) == a.len(),
        before_pair(a, c) == a.len(),
    decreases a.len(),
{
    let s = a + seq![c, c] + b;
    if a.len() > 0 {
        assert(a[0] != c && s[0] == a[0]);
        let rest = a.drop_first();
        assert forall|i: int| 0 <= i < rest.len() implies #[trigger] rest[i] != c by {
            assert(rest[i] == a[i + 1]);
        }
        assert(s.drop_first() =~= rest + seq![c, c] + b);
        lemma_before_pair_at(rest, c, b);
    } else {
        assert(s[0] == c && s[1] == c);
    }
}

/// The output of a text whose beginning `p` holds no marks and whose next stretch is `piece`,
/// and after which `rest` is left.
proof fn lemma_html_of_stretch(p: Seq<char>, x: Seq<char>, piece: Piece, rest: Seq<char>)
    requires
        is_plain(p, true),
        x.len() > 0,
        x[0] == '*' || x[0] == '`' || x[0] == '[',
        rest.len() > 0 ==> rest[0] != '#',
        forall|line_start: bool| #[trigger] first_piece(escaped(x), line_start) == (
            piece,
            escaped(rest),
        ),
    ensures
        html_of(p + x) == escaped(p) + piece_html(piece) + html_of(rest),
{
    lemma_escaped_concat(p, x);
    lemma_escaped_plain(p);
    lemma_escaped_first(x);
    if rest.len() > 0 {
        lemma_escaped_first(rest);
    }
    let e = escaped(x);
    let ls = if escaped(p).len() == 0 {
        true
    } else {
        escaped(p).last() == '\n'
    };
    lemma_output_after_plain(escaped(p), e, true);
    lemma_output_step(e, ls);
    assert(first_piece(e, ls) == (piece, escaped(rest)));
    lemma_output_inside_line(escaped(rest));
    assert(html_of(rest) == output(escaped(rest), true));
    assert(escaped(p) + (piece_html(piece) + html_of(rest)) =~= escaped(p) + piece_html(piece)
        + html_of(rest));
}

/// Text between two pairs of stars is bold, and nothing of it is lost; the text before and
/// behind is rendered by itself. At the end of a text, the second pair may be missing.
pub proof fn law_bold_text(p: Seq<char>, t: Seq<char>, rest: Seq<char>)
    requires
        is_plain(p, true),
        forall|i: int| 0 <= i < t.len() ==> #[trigger] t[i] != '*',
        rest.len() > 0 ==> rest[0] != '#',
    ensures
        html_of(p + ("**"@ + t + "**"@ + rest)) == escaped(p) + ("<b>"@ + escaped(t) + "</b>"@)
            + html_of(rest),
        html_of(p + ("**"@ + t)) == escaped(p) + ("<b>"@ + escaped(t) + "</b>"@),
{
    reveal_strlit("**");
    let m = "**"@;
    assert(m =~= seq!['*', '*']);
    lemma_escaped_as_is(m);
    lemma_escaped_lacks(t, '*');
    let x = m + t + m + rest;
    lemma_escaped_concat(m + t + m, rest);
    lemma_escaped_concat(m + t, m);
    lemma_escaped_concat(m, t);
    let e = escaped(x);
    let et = escaped(t);
    let er = escaped(rest);
    assert(e =~= m + et + m + er);
    assert(e[0] == '*' && e.drop_first()[0] == '*');
    let body = dropped(e, 2);
    assert(body =~= et + seq!['*', '*'] + er);
    lemma_before_pair_at(et, '*', er);
    assert(body.take(et.len() as int) =~= et);
    assert(dropped(body, et.len() as int + 2) =~= er);
    lemma_html_of_stretch(p, x, Piece::Bold(et), rest);
    let y = m + t;
    let f = escaped(y);
    let none = Seq::<char>::empty();
    assert(f =~= m + et);
    assert(f[0] == '*' && f.drop_first()[0] == '*');
    let open = dropped(f, 2);
    assert(open =~= et);
    assert(open.take(et.len() as int) =~= et);
    assert(escaped(none) =~= none);
    assert(dropped(open, et.len() as int + 2) =~= none);
    lemma_html_of_stretch(p, y, Piece::Bold(et), none);
    lemma_empty_html(none);
    assert(escaped(p) + ("<b>"@ + et + "</b>"@) + html_of(none) =~= escaped(p) + ("<b>"@ + et
        + "</b>"@));
}

/// Text between two stars is italic, and nothing of it is lost. At the end of a text, the
/// second star may be missing.
pub proof fn law_italic_text(p: Seq<char>, t: Seq<char>, rest: Seq<char>)
    requires
        is_plain(p, true),
        t.len() > 0,
        forall|i: int| 0 <= i < t.len() ==> #[trigger] t[i] != '*',
        rest.len() > 0 ==> rest[0] != '#',
    ensures
        html_of(p + (seq!['*'] + t + seq!['*'] + rest)) == escaped(p) + ("<i>"@ + escaped(t)
            + "</i>"@) + html_of(rest),
        html_of(p + (seq!['*'] + t)) == escaped(p) + ("<i>"@ + escaped(t) + "</i>"@),
{
    let m = seq!['*'];
    lemma_escaped_as_is(m);
    lemma_escaped_lacks(t, '*');
    lemma_escaped_first(t);
    let x = m + t + m + rest;
    lemma_escaped_concat(m + t + m, rest);
    lemma_escaped_concat(m + t, m);
    lemma_escaped_concat(m, t);
    let e = escaped(x);
    let et = escaped(t);
    let er = escaped(rest);
    assert(e =~= m + et + m + er);
    let body = e.drop_first();
    assert(body =~= et + m + er);
    assert(body[0] == et[0]);
    lemma_before_char_at(et, '*', er);
    assert(body.take(et.len() as int) =~= et);
    assert(dropped(body, et.len() as int + 1) =~= er);
    lemma_html_of_stretch(p, x, Piece::Italic(et), rest);
    let y = m + t;
    let f = escaped(y);
    let none = Seq::<char>::empty();
    assert(f =~= m + et);
    let open = f.drop_first();
    assert(open =~= et);
    assert(open.take(et.len() as int) =~= et);
    assert(escaped(none) =~= none);
    assert(dropped(open, et.len() as int + 1) =~= none);
    lemma_html_of_stretch(p, y, Piece::Italic(et), none);
    lemma_empty_html(none);
    assert(escaped(p) + ("<i>"@ + et + "</i>"@) + html_of(none) =~= escaped(p) + ("<i>"@ + et
        + "</i>"@));
}

/// Text between two backticks, or two pairs of them, is code, and nothing of it is lost.
pub proof fn law_code(p: Seq<char>, t: Seq<char>, rest: Seq<char>)
    requires
        is_plain(p, true),
        t.len() > 0,
        forall|i: int| 0 <= i < t.len() ==> #[trigger] t[i] != '`',
        rest.len() > 0 ==> rest[0] != '#',
    ensures
        html_of(p + (seq!['`'] + t + seq!['`'] + rest)) == escaped(p) + ("<code>"@ + escaped(t)
            + "</code>"@) + html_of(rest),
        html_of(p + (seq!['`', '`'] + t + seq!['`', '`'] + rest)) == escaped(p) + ("<code>"@
            + escaped(t) + "</code>"@) + html_of(rest),
{
    let m = seq!['`'];
    lemma_escaped_as_is(m);
    lemma_escaped_lacks(t, '`');
    lemma_escaped_first(t);
    let x = m + t + m + rest;
    lemma_escaped_concat(m + t + m, rest);
    lemma_escaped_concat(m + t, m);
    lemma_escaped_concat(m, t);
    let e = escaped(x);
    let et = escaped(t);
    let er = escaped(rest);
    assert(e =~= m + et + m + er);
    let body = e.drop_first();
    assert(body =~= et + m + er);
    assert(body[0] == et[0]);
    lemma_before_char_at(et, '`', er);
    assert(body.take(et.len() as int) =~= et);
    assert(dropped(body, et.len() as int + 1) =~= er);
    lemma_html_of_stretch(p, x, Piece::Code(et), rest);
    let d = seq!['`', '`'];
    lemma_escaped_as_is(d);
    let y = d + t + d + rest;
    lemma_escaped_concat(d + t + d, rest);
    lemma_escaped_concat(d + t, d);
    lemma_escaped_concat(d, t);
    let f = escaped(y);
    assert(f =~= d + et + d + er);
    assert(f[0] == '`' && f.drop_first()[0] == '`');
    let code = dropped(f, 2);
    assert(code =~= et + d + er);
    assert(code[0] == et[0]);
    lemma_before_pair_at(et, '`', er);
    assert(code.take(et.len() as int) =~= et);
    assert(dropped(code, et.len() as int + 2) =~= er);
    lemma_html_of_stretch(p, y, Piece::Code(et), rest);
}

/// A fenced block: three backticks, perhaps a language tag, and a line break; the code; and
/// three backticks. The code is kept but for whitespace at its end.
pub proof fn law_fenced_block(
    p: Seq<char>,
    tag: Seq<char>,
    code: Seq<char>,
    space: Seq<char>,
    rest: Seq<char>,
)
    requires
        is_plain(p, true),
        forall|i: int| 0 <= i < tag.len() ==> #[trigger] tag[i] != '\n',
        forall|i: int| 0 <= i < code.len() ==> #[trigger] code[i] != '`',
        code.len() > 0 ==> !is_whitespace(code.last()),
        forall|i: int| 0 <= i < space.len() ==> is_whitespace(#[trigger] space[i]),
        rest.len() > 0 ==> rest[0] != '#',
    ensures
        html_of(p + ("```"@ + tag + seq!['\n'] + code + space + "```"@ + rest)) == escaped(p) + (
        "<pre>"@ + escaped(code) + "</pre>"@) + html_of(rest),
{
    reveal_strlit("```");
    let f = "```"@;
    assert(f =~= seq!['`', '`', '`']);
    let nl = seq!['\n'];
    let all = code + space;
    lemma_escaped_as_is(f);
    lemma_escaped_as_is(nl);
    lemma_escaped_as_is(space);
    lemma_escaped_lacks(tag, '\n');
    assert forall|i: int| 0 <= i < all.len() implies #[trigger] all[i] != '`' by {
        if i < code.len() {
            assert(all[i] == code[i]);
        } else {
            assert(all[i] == space[i - code.len()]);
        }
    }
    lemma_escaped_lacks(all, '`');
    lemma_escaped_concat(code, space);
    let x = f + tag + nl + code + space + f + rest;
    let head = f + tag + nl;
    assert(x =~= head + all + f + rest);
    lemma_escaped_concat(head + all + f, rest);
    lemma_escaped_concat(head + all, f);
    lemma_escaped_concat(head, all);
    lemma_escaped_concat(f + tag, nl);
    lemma_escaped_concat(f, tag);
    assert(escaped(x) =~= f + escaped(tag) + nl + escaped(all) + f + escaped(rest));
    if code.len() > 0 {
        lemma_escaped_first(code);
    } else {
        assert(escaped(code) =~= Seq::<char>::empty());
    }
    law_trim_back_cuts_the_back(escaped(code), space, CharSet::Whitespace);
    lemma_fence_piece(escaped(x), escaped(tag), escaped(all), escaped(rest));
    lemma_html_of_stretch(p, x, Piece::Block(escaped(code)), rest);
}

proof fn lemma_fence_piece(e: Seq<char>, tag: Seq<char>, code: Seq<char>, rest: Seq<char>)
    requires
        e == seq!['`', '`', '`'] + tag + seq!['\n'] + code + seq!['`', '`', '`'] + rest,
        forall|i: int| 0 <= i < tag.len() ==> #[trigger] tag[i] != '\n',
        forall|i: int| 0 <= i < code.len() ==> #[trigger] code[i] != '`',
    ensures
        forall|line_start: bool| #[trigger]
            first_piece(e, line_start) == (Piece::Block(trim_back(code, CharSet::Whitespace)), rest),
{
    let f = seq!['`', '`', '`'];
    let nl = seq!['\n'];
    assert(e[0] == '`' && e.drop_first()[0] == '`' && dropped(e, 2)[0] == '`');
    let tagged = dropped(e, 3);
    let tail = code + f + rest;
    assert(tagged =~= tag + nl + tail);
    lemma_before_char_at(tag, '\n', tail);
    let body = dropped(tagged, tag.len() as int + 1);
    assert(body =~= tail);
    assert(tail =~= code + seq!['`', '`'] + (seq!['`'] + rest));
    lemma_before_pair_at(code, '`', seq!['`'] + rest);
    assert(body.take(code.len() as int) =~= code);
    let after = dropped(body, code.len() as int + 2);
    assert(after =~= seq!['`'] + rest);
    assert(after.drop_first() =~= rest);
}

/// A link shows its text and leads to its address. Text in brackets that no address follows
/// stays as it is.
pub proof fn law_link(p: Seq<char>, t: Seq<char>, url: Seq<char>, rest: Seq<char>)
    requires
        is_plain(p, true),
        forall|i: int| 0 <= i < t.len() ==> #[trigger] t[i] != ']',
        forall|i: int| 0 <= i < url.len() ==> #[trigger] url[i] != ')',
        rest.len() > 0 ==> rest[0] != '#',
    ensures
        html_of(p + (seq!['['] + t + seq![']', '('] + url + seq![')'] + rest)) == escaped(p) + (
        "<a href=\""@ + escaped(url) + "\">"@ + escaped(t) + "</a>"@) + html_of(rest),
        !(rest.len() > 0 && rest[0] == '(') ==> html_of(p + (seq!['['] + t + seq![']'] + rest))
            == escaped(p) + (seq!['['] + escaped(t) + seq![']']) + html_of(rest),
{
    let o = seq!['['];
    let mid = seq![']', '('];
    let c = seq![')'];
    let b = seq![']'];
    lemma_escaped_as_is(o);
    lemma_escaped_as_is(mid);
    lemma_escaped_as_is(c);
    lemma_escaped_as_is(b);
    lemma_escaped_lacks(t, ']');
    lemma_escaped_lacks(url, ')');
    let et = escaped(t);
    let eu = escaped(url);
    let er = escaped(rest);
    let x = o + t + mid + url + c + rest;
    lemma_escaped_concat(o + t + mid + url + c, rest);
    lemma_escaped_concat(o + t + mid + url, c);
    lemma_escaped_concat(o + t + mid, url);
    lemma_escaped_concat(o + t, mid);
    lemma_escaped_concat(o, t);
    assert(escaped(x) =~= o + et + mid + eu + c + er);
    lemma_link_piece(escaped(x), et, eu, er);
    lemma_html_of_stretch(p, x, Piece::Link { url: eu, text: et }, rest);
    if !(rest.len() > 0 && rest[0] == '(') {
        let y = o + t + b + rest;
        lemma_escaped_concat(o + t + b, rest);
        lemma_escaped_concat(o + t, b);
        assert(escaped(y) =~= o + et + b + er);
        if rest.len() > 0 {
            lemma_escaped_first(rest);
        }
        lemma_bracket_piece(escaped(y), et, er);
        lemma_html_of_stretch(p, y, Piece::Plain(seq!['['] + et + seq![']']), rest);
    }
}

proof fn lemma_link_piece(e: Seq<char>, t: Seq<char>, url: Seq<char>, rest: Seq<char>)
    requires
        e == seq!['['] + t + seq![']', '('] + url + seq![')'] + rest,
        forall|i: int| 0 <= i < t.len() ==> #[trigger] t[i] != ']',
        forall|i: int| 0 <= i < url.len() ==> #[trigger] url[i] != ')',
    ensures
        forall|line_start: bool| #[trigger]
            first_piece(e, line_start) == (Piece::Link { url, text: t }, rest),
{
    assert(e[0] == '[');
    let inner = e.drop_first();
    let tail = seq!['('] + url + seq![')'] + rest;
    assert(inner =~= t + seq![']'] + tail);
    lemma_before_char_at(t, ']', tail);
    assert(inner.take(t.len() as int) =~= t);
    let after = dropped(inner, t.len() as int + 1);
    assert(after =~= tail);
    let target = after.drop_first();
    assert(target =~= url + seq![')'] + rest);
    lemma_before_char_at(url, ')', rest);
    assert(target.take(url.len() as int) =~= url);
    assert(dropped(target, url.len() as int + 1) =~= rest);
}

proof fn lemma_bracket_piece(e: Seq<char>, t: Seq<char>, rest: Seq<char>)
    requires
        e == seq!['['] + t + seq![']'] + rest,
        forall|i: int| 0 <= i < t.len() ==> #[trigger] t[i] != ']',
        !(rest.len() > 0 && rest[0] == '('),
    ensures
        forall|line_start: bool| #[trigger]
            first_piece(e, line_start) == (
                Piece::Plain(seq!['['] + t + seq![']']),
                rest,
            ),
{
    assert(e[0] == '[');
    let inner = e.drop_first();
    assert(inner =~= t + seq![']'] + rest);
    lemma_before_char_at(t, ']', rest);
    assert(inner.take(t.len() as int) =~= t);
    assert(dropped(inner, t.len() as int + 1) =~= rest);
}

/// A line that begins with `#` and a space is a heading: the whole line is bold, as it stands.
pub proof fn law_heading(p: Seq<char>, hashes: Seq<char>, t: Seq<char>, rest: Seq<char>)
    requires
        is_plain(p, true),
        p.len() > 0 ==> p.last() == '\n',
        hashes.len() > 0,
        forall|i: int| 0 <= i < hashes.len() ==> #[trigger] hashes[i] == '#',
        forall|i: int| 0 <= i < t.len() ==> #[trigger] t[i] != '\n',
    ensures
        html_of(p + (hashes + seq![' '] + t + seq!['\n'] + rest)) == escaped(p) + ("<b>"@ + escaped(
            t,
        ) + "</b>"@) + seq!['\n'] + html_of(rest),
        html_of(p + (hashes + seq![' '] + t)) == escaped(p) + ("<b>"@ + escaped(t) + "</b>"@),
{
    let sp = seq![' '];
    let nl = seq!['\n'];
    lemma_escaped_as_is(hashes);
    lemma_escaped_as_is(sp);
    lemma_escaped_as_is(nl);
    lemma_escaped_lacks(t, '\n');
    let et = escaped(t);
    let er = escaped(rest);
    let none = Seq::<char>::empty();
    lemma_escaped_plain(p);
    if p.len() > 0 {
        lemma_escaped_first(p);
    }
    let x = hashes + sp + t + nl + rest;
    lemma_escaped_concat(p, x);
    lemma_escaped_concat(hashes + sp + t + nl, rest);
    lemma_escaped_concat(hashes + sp + t, nl);
    lemma_escaped_concat(hashes + sp, t);
    lemma_escaped_concat(hashes, sp);
    let e = escaped(x);
    assert(e =~= hashes + sp + et + nl + er);
    lemma_heading_piece(hashes, et, nl + er);
    assert(e =~= hashes + sp + et + (nl + er));
    lemma_output_after_plain(escaped(p), e, true);
    lemma_output_step(e, true);
    assert(e[0] == '#');
    lemma_plain_head(nl + er, false);
    assert((nl + er).drop_first() =~= er);
    assert(output(nl + er, false) == nl + output(er, true));
    assert(html_of(p + x) == escaped(p) + (("<b>"@ + et + "</b>"@) + (nl + html_of(rest))));
    assert(escaped(p) + (("<b>"@ + et + "</b>"@) + (nl + html_of(rest))) =~= escaped(p) + ("<b>"@
        + et + "</b>"@) + nl + html_of(rest));
    let y = hashes + sp + t;
    lemma_escaped_concat(p, y);
    let f = escaped(y);
    assert(f =~= hashes + sp + et);
    assert(f =~= hashes + sp + et + none);
    lemma_heading_piece(hashes, et, none);
    lemma_output_after_plain(escaped(p), f, true);
    lemma_output_step(f, true);
    assert(f[0] == '#');
    assert(output(none, false) =~= none);
    assert(escaped(p) + (("<b>"@ + et + "</b>"@) + none) =~= escaped(p) + ("<b>"@ + et + "</b>"@));
}

proof fn lemma_heading_piece(hashes: Seq<char>, t: Seq<char>, x: Seq<char>)
    requires
        hashes.len() > 0,
        forall|i: int| 0 <= i < hashes.len() ==> #[trigger] hashes[i] == '#',
        forall|i: int| 0 <= i < t.len() ==> #[trigger] t[i] != '\n',
        x.len() > 0 ==> x[0] == '\n',
    ensures
        first_piece(hashes + seq![' '] + t + x, true) == (Piece::Bold(t), x),
{
    let s = hashes + seq![' '] + t + x;
    assert(s[0] == '#');
    let rest = s.drop_first();
    let more = hashes.drop_first();
    assert forall|i: int| 0 <= i < more.len() implies #[trigger] more[i] == '#' by {
        assert(more[i] == hashes[i + 1]);
    }
    assert(rest =~= more + (seq![' '] + t + x));
    lemma_leading_at(more, '#', seq![' '] + t + x);
    let marked = dropped(rest, more.len() as int);
    assert(marked =~= seq![' '] + t + x);
    let body = marked.drop_first();
    assert(body =~= t + x);
    if x.len() > 0 {
        assert(t + x =~= t + seq!['\n'] + x.drop_first());
        lemma_before_char_at(t, '\n', x.drop_first());
    } else {
        assert(t + x =~= t);
        lemma_before_char_at(t, '\n', x);
    }
    assert(body.take(t.len() as int) =~= t);
    assert(dropped(body, t.len() as int) =~= x);
}

proof fn lemma_leading_at(a: Seq<char>, c: char, b: Seq<char>)
    requires
        forall|i: int| 0 <= i < a.len() ==> #[trigger] a[i] == c,
        b.len() > 0 ==> b[0] != c,
    ensures
        leading(a + b, c) == a.len(),
    decreases a.len(),
{
    let s = a + b;
    if a.len() > 0 {
        assert(s[0] == a[0]);
        let rest = a.drop_first();
        assert forall|i: int| 0 <= i < rest.len() implies #[trigger] rest[i] == c by {
            assert(rest[i] == a[i + 1]);
        }
        assert(s.drop_first() =~= rest + b);
        lemma_leading_at(rest, c, b);
    } else {
        assert(s =~= b);
    }
}

/// A message holds all of a text that is short enough; a longer one is cut, and the message
/// then ends in the suffix.
pub proof fn law_message_holds_the_text(text: Seq<char>, max: int, suffix: Seq<char>)
    requires
        0 <= max,
    ensures
        html_of(text).len() <= max ==> chunk_html(text, max, suffix) == html_of(text) && chunk_chars(
            text,
            max,
            suffix.len() as int,
        ) == text.len(),
        html_of(text).len() > max ==> exists|n: int|
            0 <= n < text.len() && chunk_chars(text, max, suffix.len() as int) == n && chunk_html(
                text,
                max,
                suffix,
            ) == #[trigger] html_of(text.take(n)) + suffix,
        MAX_MESSAGE_CHARS == 4096,
{
    law_chunk_is_full(text, max, suffix.len() as int);
}

/// The messages of a long text are as few as can be: each takes as much of what is left as a
/// message holds.
pub proof fn law_messages_are_full(text: Seq<char>)
    ensures
        text.len() == 0 ==> chunks(text).len() == 0,
        text.len() > 0 ==> {
            let n = chunks(text)[0].len() as int;
            &&& chunks(text).len() > 0
            &&& 0 < n <= text.len() && chunks(text)[0] == text.take(n)
            &&& chunks(text).drop_first() == chunks(text.skip(n))
            &&& html_of(text).len() <= 4096 ==> n == text.len()
            &&& n < text.len() ==> html_of(text.take(n + 1)).len() > 4096
        },
{
    if text.len() > 0 {
        law_chunk_makes_progress(text, 4096, 0);
        law_chunk_is_full(text, 4096, 0);
        let n = chunk_chars(text, 4096, 0);
        assert(chunks(text)[0] == text.take(n));
        assert(chunks(text).drop_first() =~= chunks(text.skip(n)));
    }
}

} // verus!
