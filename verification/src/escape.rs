//! Control sequences in the output of a terminal program, and which of them
//! reset the scroll region.
use crate::bytes::{ascii, ascii_bytes, same_bytes};
use vstd::prelude::*;

verus! {

/// The escape byte that introduces every control sequence.
pub const ESC: u8 = 0x1b;

/// Parameter bytes of a control sequence: digits, `;`, `?` and the like.
pub open spec fn is_parameter(b: u8) -> bool {
    0x30 <= b <= 0x3f
}

/// Intermediate bytes of a control sequence.
pub open spec fn is_intermediate(b: u8) -> bool {
    0x20 <= b <= 0x2f
}

/// The length of the longest prefix of `s` whose bytes all satisfy `p`.
pub open spec fn span(s: Seq<u8>, p: spec_fn(u8) -> bool) -> nat
    decreases s.len(),
{
    if s.len() > 0 && p(s[0]) {
        1 + span(s.skip(1), p)
    } else {
        0
    }
}

/// What a terminal stream is made of.
pub enum Token {
    /// A byte outside of any control sequence.
    Plain(u8),
    /// `ESC` and one more byte, other than `[` and `ESC`.
    Escape(u8),
    /// `ESC [`, parameter bytes, intermediate bytes and a final byte.
    Csi { params: Seq<u8>, last: u8 },
    /// A control sequence that was given up for another one: an `ESC` came before its
    /// end.
    Abandoned,
}

/// The first token of `s` and its length. There is none when `s` is empty or
/// ends in the middle of a control sequence. An `ESC` always begins a sequence: one that
/// is open is given up, and the `ESC` belongs to the next token.
pub open spec fn first_token(s: Seq<u8>) -> Option<(Token, nat)> {
    if s.len() == 0 {
        None
    } else if s[0] != ESC {
        Some((Token::Plain(s[0]), 1))
    } else if s.len() == 1 {
        None
    } else if s[1] == ESC {
        Some((Token::Abandoned, 1))
    } else if s[1] != '[' as u8 {
        Some((Token::Escape(s[1]), 2))
    } else {
        let p = 2 + span(s.skip(2), |b: u8| is_parameter(b));
        let q = p + span(s.skip(p as int), |b: u8| is_intermediate(b));
        if q >= s.len() {
            None
        } else if s[q as int] == ESC {
            Some((Token::Abandoned, q))
        } else {
            Some((Token::Csi { params: s.subrange(2, p as int), last: s[q as int] }, q + 1))
        }
    }
}

/// The tokens of `s` in order. An unfinished control sequence at the end gives
/// no token.
pub open spec fn tokens(s: Seq<u8>) -> Seq<Token>
    decreases s.len(),
{
    match first_token(s) {
        Some((t, n)) => if 0 < n <= s.len() {
            seq![t] + tokens(s.skip(n as int))
        } else {
            seq![]
        },
        None => seq![],
    }
}

/// Whether `field` stands in the `;`-separated list `s`, beginning at `i`.
pub open spec fn field_at(s: Seq<u8>, field: Seq<u8>, i: int) -> bool {
    let end = i + field.len();
    &&& 0 <= i
    &&& end <= s.len()
    &&& s.subrange(i, end) == field
    &&& (i == 0 || s[i - 1] == ';' as u8)
    &&& (end == s.len() || s[end] == ';' as u8)
}

/// Whether `field` is one of the fields of the `;`-separated list `s`.
pub open spec fn has_field(s: Seq<u8>, field: Seq<u8>) -> bool {
    exists|i: int| field_at(s, field, i)
}

/// Whether the list `modes` names one of the private modes that switch to or
/// from the alternate screen.
pub open spec fn names_alternate_screen(modes: Seq<u8>) -> bool {
    ||| has_field(modes, ascii("1049"@))
    ||| has_field(modes, ascii("47"@))
    ||| has_field(modes, ascii("1047"@))
}

impl Token {
    /// Whether the token resets the scroll region: a full terminal reset, a
    /// `DECSTBM` without margins, or a switch of the alternate screen.
    pub open spec fn resets(self) -> bool {
        match self {
            Token::Plain(_) => false,
            Token::Abandoned => false,
            Token::Escape(b) => b == 'c' as u8,
            Token::Csi { params, last } => {
                ||| last == 'r' as u8 && (params == Seq::<u8>::empty() || params == seq![
                    ';' as u8,
                ])
                ||| (last == 'h' as u8 || last == 'l' as u8) && params.len() > 0 && params[0]
                    == '?' as u8 && names_alternate_screen(params.skip(1))
            },
        }
    }
}

/// Whether some token of `s` resets the scroll region.
pub open spec fn has_reset(s: Seq<u8>) -> bool {
    exists|i: int| 0 <= i < tokens(s).len() && #[trigger] tokens(s)[i].resets()
}

/// Whether `s` is made of whole tokens, that is, does not end in the middle of a
/// control sequence.
pub open spec fn complete(s: Seq<u8>) -> bool
    decreases s.len(),
{
    s.len() == 0 || match first_token(s) {
        Some((_, n)) => 0 < n <= s.len() && complete(s.skip(n as int)),
        None => false,
    }
}

/// The control sequence with these parameter bytes and this final byte.
pub open spec fn csi(params: Seq<u8>, last: u8) -> Seq<u8> {
    seq![ESC, '[' as u8] + params + seq![last]
}

/// `has_reset`, one token at a time.
proof fn lemma_has_reset_step(s: Seq<u8>)
    ensures
        first_token(s) is None ==> !has_reset(s),
        first_token(s) matches Some((t, n)) ==> 0 < n <= s.len() && has_reset(s) == (t.resets()
            || has_reset(s.skip(n as int))),
{
    if let Some((t, n)) = first_token(s) {
        let rest = tokens(s.skip(n as int));
        let all = tokens(s);
        assert(all == seq![t] + rest);
        if t.resets() {
            assert(all[0].resets());
        }
        if has_reset(s.skip(n as int)) {
            let j = choose|j: int| 0 <= j < rest.len() && #[trigger] rest[j].resets();
            assert(all[j + 1].resets());
        }
        if has_reset(s) {
            let j = choose|j: int| 0 <= j < all.len() && #[trigger] all[j].resets();
            if j > 0 {
                assert(rest[j - 1].resets());
            }
        }
    }
}

/// A prefix of bytes in the class, ended by one outside it, is the span.
proof fn lemma_span(s: Seq<u8>, p: spec_fn(u8) -> bool, n: nat)
    requires
        n <= s.len(),
        forall|k: int| 0 <= k < n ==> p(#[trigger] s[k]),
        n == s.len() || !p(s[n as int]),
    ensures
        span(s, p) == n,
    decreases n,
{
    if n > 0 {
        assert(p(s[0]));
        assert forall|k: int| 0 <= k < n - 1 implies p(#[trigger] s.skip(1)[k]) by {
            assert(p(s[k + 1]));
        }
        lemma_span(s.skip(1), p, (n - 1) as nat);
    }
}

/// The end of the run of parameter bytes that begins at `from`.
fn skip_parameters(data: &[u8], from: usize) -> (end: usize)
    requires
        from <= data@.len(),
    ensures
        end == from + span(data@.skip(from as int), |b: u8| is_parameter(b)),
        end <= data@.len(),
{
    let mut i: usize = from;
    while i < data.len() && 0x30 <= data[i] && data[i] <= 0x3f
        invariant
            from <= i <= data@.len(),
            forall|k: int| from <= k < i ==> is_parameter(#[trigger] data@[k]),
        decreases data@.len() - i,
    {
        i = i + 1;
    }
    proof {
        lemma_span(data@.skip(from as int), |b: u8| is_parameter(b), (i - from) as nat);
    }
    i
}

/// The end of the run of intermediate bytes that begins at `from`.
fn skip_intermediates(data: &[u8], from: usize) -> (end: usize)
    requires
        from <= data@.len(),
    ensures
        end == from + span(data@.skip(from as int), |b: u8| is_intermediate(b)),
        end <= data@.len(),
{
    let mut i: usize = from;
    while i < data.len() && 0x20 <= data[i] && data[i] <= 0x2f
        invariant
            from <= i <= data@.len(),
            forall|k: int| from <= k < i ==> is_intermediate(#[trigger] data@[k]),
        decreases data@.len() - i,
    {
        i = i + 1;
    }
    proof {
        lemma_span(data@.skip(from as int), |b: u8| is_intermediate(b), (i - from) as nat);
    }
    i
}

/// Whether `part` is the number of an alternate-screen mode.
fn is_alternate_screen_mode(part: &[u8]) -> (r: bool)
    ensures
        r == (part@ == ascii("1049"@) || part@ == ascii("47"@) || part@ == ascii("1047"@)),
{
    proof {
        reveal_strlit("1049");
        reveal_strlit("47");
        reveal_strlit("1047");
    }
    same_bytes(part, ascii_bytes("1049")) || same_bytes(part, ascii_bytes("47")) || same_bytes(
        part,
        ascii_bytes("1047"),
    )
}

/// A field that begins at `start` and holds no `;` ends where the list's next
/// `;` is, so it is the whole of `s[start..end]`.
proof fn lemma_field_is_part(s: Seq<u8>, field: Seq<u8>, start: int, end: int)
    requires
        0 <= start <= end <= s.len(),
        start == 0 || s[start - 1] == ';' as u8,
        end == s.len() || s[end] == ';' as u8,
        forall|k: int| start <= k < end ==> s[k] != ';' as u8,
        forall|k: int| 0 <= k < field.len() ==> field[k] != ';' as u8,
    ensures
        field_at(s, field, start) == (s.subrange(start, end) == field),
        forall|i: int| start < i <= end ==> !field_at(s, field, i),
{
    let stop = start + field.len();
    if field_at(s, field, start) {
        if end < stop {
            assert(field[end - start] == s.subrange(start, stop)[end - start]);
        }
        if stop < end {
            assert(s[stop] == ';' as u8);
        }
        assert(stop == end);
    }
    if s.subrange(start, end) == field {
        assert(stop == end);
    }
}

/// Whether the `;`-separated list `modes` names an alternate-screen mode.
fn any_alternate_screen_mode(modes: &[u8]) -> (r: bool)
    ensures
        r == names_alternate_screen(modes@),
{
    let mut start: usize = 0;
    loop
        invariant
            start <= modes@.len(),
            start == 0 || modes@[start - 1] == ';' as u8,
            forall|i: int| i < start ==> !field_at(modes@, ascii("1049"@), i),
            forall|i: int| i < start ==> !field_at(modes@, ascii("47"@), i),
            forall|i: int| i < start ==> !field_at(modes@, ascii("1047"@), i),
        decreases modes@.len() - start,
    {
        let mut end: usize = start;
        while end < modes.len() && modes[end] != ';' as u8
            invariant
                start <= end <= modes@.len(),
                forall|k: int| start <= k < end ==> modes@[k] != ';' as u8,
            decreases modes@.len() - end,
        {
            end = end + 1;
        }
        let part = &modes[start..end];
        proof {
            reveal_strlit("1049");
            reveal_strlit("47");
            reveal_strlit("1047");
            lemma_field_is_part(modes@, ascii("1049"@), start as int, end as int);
            lemma_field_is_part(modes@, ascii("47"@), start as int, end as int);
            lemma_field_is_part(modes@, ascii("1047"@), start as int, end as int);
        }
        if is_alternate_screen_mode(part) {
            return true;
        }
        if end == modes.len() {
            return false;
        }
        start = end + 1;
    }
}

/// Whether a control sequence with these parameter bytes and this final byte
/// resets the scroll region.
fn csi_resets(params: &[u8], last: u8) -> (r: bool)
    ensures
        r == (Token::Csi { params: params@, last }).resets(),
{
    if last == 'r' as u8 && (params.len() == 0 || (params.len() == 1 && params[0] == ';' as u8)) {
        assert(params@ == Seq::<u8>::empty() || params@ == seq![';' as u8]);
        return true;
    }
    if (last == 'h' as u8 || last == 'l' as u8) && params.len() > 0 && params[0] == '?' as u8 {
        let modes = &params[1..params.len()];
        assert(modes@ == params@.skip(1));
        return any_alternate_screen_mode(modes);
    }
    false
}

/// Scans for control sequences that reset the scroll region: `ESC [ r` and
/// `ESC [ ; r` (`DECSTBM` without margins), `ESC c` (full terminal reset), and
/// the private modes 1049, 47 and 1047 being set or reset (alternate screen). An `ESC`
/// inside of a sequence begins a new one.
pub fn contains_scroll_reset(data: &[u8]) -> (r: bool)
    ensures
        r == has_reset(data@),
{
    let mut i: usize = 0;
    assert(data@.skip(0) == data@);
    while i < data.len()
        invariant
            i <= data@.len(),
            has_reset(data@) == has_reset(data@.skip(i as int)),
        decreases data@.len() - i,
    {
        let ghost rest = data@.skip(i as int);
        let ghost start = i as int;
        proof {
            lemma_has_reset_step(rest);
        }
        if data[i] != ESC {
            i = i + 1;
            assert(rest.skip(1) == data@.skip(i as int));
            continue;
        }
        i = i + 1;
        if i >= data.len() {
            return false;
        }
        if data[i] == ESC {
            assert(rest.skip(1) == data@.skip(i as int));
            continue;
        }
        if data[i] == 'c' as u8 {
            return true;
        }
        if data[i] != '[' as u8 {
            i = i + 1;
            assert(rest.skip(2) == data@.skip(i as int));
            continue;
        }
        i = i + 1;
        let first: usize = i;
        i = skip_parameters(data, i);
        let params = &data[first..i];
        let ghost params_end = i as int;
        i = skip_intermediates(data, i);
        proof {
            assert(rest.skip(2) == data@.skip(first as int));
            assert(rest.skip(params_end - start) == data@.skip(params_end));
            assert(rest.subrange(2, params_end - start) == params@);
        }
        if i >= data.len() {
            return false;
        }
        let last: u8 = data[i];
        if last == ESC {
            assert(rest.skip(i as int - start) == data@.skip(i as int));
            continue;
        }
        i = i + 1;
        assert(rest.skip(i as int - start) == data@.skip(i as int));
        if csi_resets(params, last) {
            return true;
        }
    }
    proof {
        lemma_has_reset_step(data@.skip(i as int));
    }
    false
}

/// What follows a whole token does not change it.
proof fn lemma_first_token_extends(a: Seq<u8>, b: Seq<u8>)
    requires
        first_token(a) is Some,
    ensures
        first_token(a + b) == first_token(a),
{
    let s = a + b;
    if a[0] == ESC && a[1] == '[' as u8 {
        let params = |x: u8| is_parameter(x);
        let inters = |x: u8| is_intermediate(x);
        let p = 2 + span(a.skip(2), params);
        lemma_span_bytes(a.skip(2), params);
        let q = p + span(a.skip(p as int), inters);
        lemma_span_bytes(a.skip(p as int), inters);
        assert forall|k: int| 0 <= k < p - 2 implies params(#[trigger] s.skip(2)[k]) by {
            assert(s.skip(2)[k] == a.skip(2)[k]);
        }
        assert forall|k: int| 0 <= k < q - p implies inters(#[trigger] s.skip(p as int)[k]) by {
            assert(s.skip(p as int)[k] == a.skip(p as int)[k]);
        }
        lemma_span(s.skip(2), params, (p - 2) as nat);
        lemma_span(s.skip(p as int), inters, (q - p) as nat);
        assert(s.subrange(2, p as int) == a.subrange(2, p as int));
    }
}

/// What a span is: bytes in the class, up to the first one outside it.
proof fn lemma_span_bytes(s: Seq<u8>, p: spec_fn(u8) -> bool)
    ensures
        span(s, p) <= s.len(),
        forall|k: int| 0 <= k < span(s, p) ==> p(#[trigger] s[k]),
        span(s, p) == s.len() || !p(s[span(s, p) as int]),
    decreases s.len(),
{
    if s.len() > 0 && p(s[0]) {
        let rest = s.skip(1);
        lemma_span_bytes(rest, p);
        assert forall|k: int| 0 <= k < span(s, p) implies p(#[trigger] s[k]) by {
            if k > 0 {
                assert(s[k] == rest[k - 1]);
            }
        }
    }
}

/// A whole control sequence is one token.
proof fn lemma_csi_token(params: Seq<u8>, last: u8)
    requires
        forall|k: int| 0 <= k < params.len() ==> is_parameter(#[trigger] params[k]),
        !is_parameter(last),
        !is_intermediate(last),
        last != ESC,
    ensures
        first_token(csi(params, last)) == Some((Token::Csi { params, last }, csi(params, last).len())),
{
    let s = csi(params, last);
    let p = 2 + params.len();
    assert forall|k: int| 0 <= k < params.len() implies is_parameter(#[trigger] s.skip(2)[k]) by {
        assert(s.skip(2)[k] == params[k]);
    }
    lemma_span(s.skip(2), |b: u8| is_parameter(b), params.len());
    lemma_span(s.skip(p as int), |b: u8| is_intermediate(b), 0);
    assert(s.subrange(2, p as int) == params);
}

/// Output without an escape byte resets nothing and ends outside of any control
/// sequence.
pub proof fn law_plain_text_has_no_reset(text: Seq<u8>)
    requires
        forall|k: int| 0 <= k < text.len() ==> text[k] != ESC,
    ensures
        !has_reset(text),
        complete(text),
    decreases text.len(),
{
    lemma_has_reset_step(text);
    if text.len() > 0 {
        law_plain_text_has_no_reset(text.skip(1));
    }
}

/// A reset that was seen stays seen, whatever output follows.
pub proof fn law_reset_is_not_undone(output: Seq<u8>, more: Seq<u8>)
    requires
        has_reset(output),
    ensures
        has_reset(output + more),
    decreases output.len(),
{
    lemma_has_reset_step(output);
    lemma_has_reset_step(output + more);
    lemma_first_token_extends(output, more);
    let (t, n) = first_token(output).unwrap();
    assert((output + more).skip(n as int) == output.skip(n as int) + more);
    if !t.resets() {
        law_reset_is_not_undone(output.skip(n as int), more);
    }
}

/// A control sequence that the output leaves open is given up when an `ESC` follows.
proof fn lemma_open_sequence_is_abandoned(open: Seq<u8>, more: Seq<u8>)
    requires
        open.len() > 0,
        first_token(open) is None,
        more.len() > 0,
        more[0] == ESC,
    ensures
        first_token(open + more) == Some((Token::Abandoned, open.len())),
{
    let s = open + more;
    if open.len() > 1 {
        let params = |x: u8| is_parameter(x);
        let inters = |x: u8| is_intermediate(x);
        lemma_span_bytes(open.skip(2), params);
        let p = 2 + span(open.skip(2), params);
        lemma_span_bytes(open.skip(p as int), inters);
        let q = p + span(open.skip(p as int), inters);
        assert(q == open.len());
        assert forall|k: int| 0 <= k < p - 2 implies params(#[trigger] s.skip(2)[k]) by {
            assert(s.skip(2)[k] == open.skip(2)[k]);
        }
        assert forall|k: int| 0 <= k < q - p implies inters(#[trigger] s.skip(p as int)[k]) by {
            assert(s.skip(p as int)[k] == open.skip(p as int)[k]);
        }
        if p < open.len() {
            assert(s.skip(2)[p - 2] == open.skip(2)[p - 2]);
        }
        lemma_span(s.skip(2), params, (p - 2) as nat);
        lemma_span(s.skip(p as int), inters, (q - p) as nat);
    }
}

/// Output and what follows it can be scanned apart, if the output ends outside of any
/// control sequence or what follows begins one.
pub proof fn law_reset_of_parts(output: Seq<u8>, more: Seq<u8>)
    requires
        complete(output) || more.len() > 0 && more[0] == ESC,
    ensures
        has_reset(output + more) == (has_reset(output) || has_reset(more)),
    decreases output.len(),
{
    lemma_has_reset_step(output);
    if output.len() == 0 {
        assert(output + more == more);
    } else {
        lemma_has_reset_step(output + more);
        match first_token(output) {
            Some((_, n)) => {
                lemma_first_token_extends(output, more);
                assert((output + more).skip(n as int) == output.skip(n as int) + more);
                law_reset_of_parts(output.skip(n as int), more);
            },
            None => {
                lemma_open_sequence_is_abandoned(output, more);
                assert((output + more).skip(output.len() as int) == more);
            },
        }
    }
}

/// A control sequence embedded in output is seen for what it is, whatever is around it:
/// the whole holds a reset exactly if the sequence is one or the output before or after it
/// holds one.
pub proof fn law_embedded_control_sequence(
    before: Seq<u8>,
    params: Seq<u8>,
    last: u8,
    after: Seq<u8>,
)
    requires
        forall|k: int| 0 <= k < params.len() ==> is_parameter(#[trigger] params[k]),
        !is_parameter(last),
        !is_intermediate(last),
        last != ESC,
    ensures
        has_reset(before + csi(params, last) + after) == (has_reset(before) || (Token::Csi {
            params,
            last,
        }).resets() || has_reset(after)),
{
    let s = csi(params, last);
    lemma_csi_token(params, last);
    lemma_has_reset_step(s);
    lemma_has_reset_step(s.skip(s.len() as int));
    assert(complete(s.skip(s.len() as int)));
    assert(before + s + after == before + (s + after));
    law_reset_of_parts(before, s + after);
    law_reset_of_parts(s, after);
}

/// An escape sequence of two bytes embedded in output is seen for what it is, whatever is
/// around it: the whole holds a reset exactly if the sequence is a full terminal reset or the
/// output before or after it holds a reset.
pub proof fn law_embedded_escape_sequence(before: Seq<u8>, b: u8, after: Seq<u8>)
    requires
        b != ESC,
        b != '[' as u8,
    ensures
        has_reset(before + seq![ESC, b] + after) == (has_reset(before) || b == 'c' as u8
            || has_reset(after)),
{
    let s = seq![ESC, b];
    lemma_has_reset_step(s);
    lemma_has_reset_step(s.skip(2));
    assert(complete(s.skip(2)));
    assert(before + s + after == before + (s + after));
    law_reset_of_parts(before, s + after);
    law_reset_of_parts(s, after);
}

/// A full terminal reset embedded in output is always seen.
pub proof fn law_embedded_full_reset(before: Seq<u8>, after: Seq<u8>)
    ensures
        has_reset(before + seq![ESC, 'c' as u8] + after),
{
    law_embedded_escape_sequence(before, 'c' as u8, after);
}

/// A list of one field has that field.
proof fn lemma_single_field(field: Seq<u8>)
    ensures
        has_field(field, field),
{
    assert(field.subrange(0, field.len() as int) == field);
    assert(field_at(field, field, 0));
}

/// Each documented way to reset the scroll region is one: `DECSTBM` without
/// margins, and each alternate-screen mode being set or reset.
pub proof fn law_documented_resets(last: u8)
    requires
        last == 'h' as u8 || last == 'l' as u8,
    ensures
        (Token::Csi { params: seq![], last: 'r' as u8 }).resets(),
        (Token::Csi { params: seq![';' as u8], last: 'r' as u8 }).resets(),
        (Token::Csi { params: ascii("?1049"@), last }).resets(),
        (Token::Csi { params: ascii("?47"@), last }).resets(),
        (Token::Csi { params: ascii("?1047"@), last }).resets(),
{
    reveal_strlit("?1049");
    reveal_strlit("?47");
    reveal_strlit("?1047");
    reveal_strlit("1049");
    reveal_strlit("47");
    reveal_strlit("1047");
    assert(ascii("?1049"@).skip(1) == ascii("1049"@));
    assert(ascii("?47"@).skip(1) == ascii("47"@));
    assert(ascii("?1047"@).skip(1) == ascii("1047"@));
    lemma_single_field(ascii("1049"@));
    lemma_single_field(ascii("47"@));
    lemma_single_field(ascii("1047"@));
}

/// A `DECSTBM` that sets margins resets nothing.
pub proof fn law_margins_are_no_reset(params: Seq<u8>)
    requires
        params.len() > 0,
        params != seq![';' as u8],
    ensures
        !(Token::Csi { params, last: 'r' as u8 }).resets(),
{
}

/// Whether `mode` is the number of an alternate-screen mode, digit by digit.
pub open spec fn is_alternate_screen(mode: Seq<u8>) -> bool {
    ||| mode == seq![0x31u8, 0x30u8, 0x34u8, 0x39u8]
    ||| mode == seq![0x34u8, 0x37u8]
    ||| mode == seq![0x31u8, 0x30u8, 0x34u8, 0x37u8]
}

/// Whether `params` is a list of private modes in which `mode` stands between `before` and
/// `after`.
pub open spec fn lists_mode(
    params: Seq<u8>,
    before: Seq<u8>,
    mode: Seq<u8>,
    after: Seq<u8>,
) -> bool {
    &&& params == seq![0x3fu8] + before + mode + after
    &&& before.len() == 0 || before.last() == 0x3b
    &&& after.len() == 0 || after[0] == 0x3b
}

/// The alternate-screen modes in bytes.
proof fn lemma_modes()
    ensures
        ascii("1049"@) == seq![0x31u8, 0x30u8, 0x34u8, 0x39u8],
        ascii("47"@) == seq![0x34u8, 0x37u8],
        ascii("1047"@) == seq![0x31u8, 0x30u8, 0x34u8, 0x37u8],
{
    reveal_strlit("1049");
    reveal_strlit("47");
    reveal_strlit("1047");
    assert(ascii("1049"@) =~= seq![0x31u8, 0x30u8, 0x34u8, 0x39u8]);
    assert(ascii("47"@) =~= seq![0x34u8, 0x37u8]);
    assert(ascii("1047"@) =~= seq![0x31u8, 0x30u8, 0x34u8, 0x37u8]);
}

/// A switch of the alternate screen is one wherever it stands in a list of private modes.
pub proof fn law_alternate_screen_among_modes(
    before: Seq<u8>,
    mode: Seq<u8>,
    after: Seq<u8>,
    last: u8,
)
    requires
        before.len() == 0 || before.last() == 0x3b,
        after.len() == 0 || after[0] == 0x3b,
        is_alternate_screen(mode),
        last == 0x68 || last == 0x6c,
    ensures
        (Token::Csi { params: seq![0x3fu8] + before + mode + after, last }).resets(),
{
    lemma_modes();
    let params = seq![0x3fu8] + before + mode + after;
    let modes = params.skip(1);
    assert(modes == before + mode + after);
    assert(modes.subrange(before.len() as int, (before.len() + mode.len()) as int) == mode);
    assert(field_at(modes, mode, before.len() as int));
}

/// A control sequence resets the scroll region in these cases and no others: it sets the
/// margins without naming any, or it sets or resets a list of private modes with an
/// alternate-screen mode among them.
pub proof fn law_no_other_control_sequence_resets(params: Seq<u8>, last: u8)
    ensures
        last == 0x72 ==> ((Token::Csi { params, last }).resets() <==> params.len() == 0
            || params.len() == 1 && params[0] == 0x3b),
        last != 0x72 && last != 0x68 && last != 0x6c ==> !(Token::Csi { params, last }).resets(),
        (last == 0x68 || last == 0x6c) && (Token::Csi { params, last }).resets() ==> exists|
            before: Seq<u8>,
            mode: Seq<u8>,
            after: Seq<u8>,
        |
            is_alternate_screen(mode) && #[trigger] lists_mode(params, before, mode, after),
{
    lemma_modes();
    if params.len() == 0 {
        assert(params =~= Seq::<u8>::empty());
    }
    if last == 0x72 && params.len() == 1 && params[0] == 0x3b {
        assert(params =~= seq![';' as u8]);
    }
    if (last == 0x68 || last == 0x6c) && (Token::Csi { params, last }).resets() {
        let modes = params.skip(1);
        let mode = if has_field(modes, ascii("1049"@)) {
            ascii("1049"@)
        } else if has_field(modes, ascii("47"@)) {
            ascii("47"@)
        } else {
            ascii("1047"@)
        };
        let i = choose|i: int| field_at(modes, mode, i);
        let before = modes.take(i);
        let after = modes.skip(i + mode.len());
        assert(modes.subrange(i, i + mode.len()) == mode);
        assert(params =~= seq![0x3fu8] + before + mode + after);
        assert(lists_mode(params, before, mode, after));
    }
}

/// A whole control sequence with intermediate bytes is one token, which does not depend on
/// them.
proof fn lemma_long_csi_token(params: Seq<u8>, inters: Seq<u8>, last: u8)
    requires
        forall|k: int| 0 <= k < params.len() ==> 0x30 <= #[trigger] params[k] <= 0x3f,
        forall|k: int| 0 <= k < inters.len() ==> 0x20 <= #[trigger] inters[k] <= 0x2f,
        !(0x20 <= last <= 0x3f),
        last != 0x1b,
    ensures
        first_token(seq![0x1bu8, 0x5bu8] + params + inters + seq![last]) == Some(
            (Token::Csi { params, last }, (3 + params.len() + inters.len()) as nat),
        ),
{
    let s = seq![0x1bu8, 0x5bu8] + params + inters + seq![last];
    let p = 2 + params.len();
    assert forall|k: int| 0 <= k < params.len() implies is_parameter(#[trigger] s.skip(2)[k]) by {
        assert(s.skip(2)[k] == params[k]);
    }
    assert forall|k: int| 0 <= k < inters.len() implies is_intermediate(
        #[trigger] s.skip(p as int)[k],
    ) by {
        assert(s.skip(p as int)[k] == inters[k]);
    }
    if inters.len() > 0 {
        assert(s.skip(2)[params.len() as int] == inters[0]);
    }
    lemma_span(s.skip(2), |b: u8| is_parameter(b), params.len());
    lemma_span(s.skip(p as int), |b: u8| is_intermediate(b), inters.len());
    assert(s.subrange(2, p as int) == params);
}

/// Intermediate bytes make no difference: a control sequence embedded in output is seen for
/// what its parameters and its final byte make it.
pub proof fn law_intermediates_are_passed_over(
    before: Seq<u8>,
    params: Seq<u8>,
    inters: Seq<u8>,
    last: u8,
    after: Seq<u8>,
)
    requires
        forall|k: int| 0 <= k < params.len() ==> 0x30 <= #[trigger] params[k] <= 0x3f,
        forall|k: int| 0 <= k < inters.len() ==> 0x20 <= #[trigger] inters[k] <= 0x2f,
        !(0x20 <= last <= 0x3f),
        last != 0x1b,
    ensures
        has_reset(before + (seq![0x1bu8, 0x5bu8] + params + inters + seq![last]) + after) == (
        has_reset(before) || (Token::Csi { params, last }).resets() || has_reset(after)),
{
    let s = seq![0x1bu8, 0x5bu8] + params + inters + seq![last];
    lemma_long_csi_token(params, inters, last);
    lemma_has_reset_step(s);
    lemma_has_reset_step(s.skip(s.len() as int));
    assert(complete(s.skip(s.len() as int)));
    assert(before + s + after == before + (s + after));
    law_reset_of_parts(before, s + after);
    law_reset_of_parts(s, after);
}

/// A control sequence that the output breaks off in is no reset, however it would go on.
pub proof fn law_open_sequence_is_no_reset(before: Seq<u8>, params: Seq<u8>, inters: Seq<u8>)
    requires
        forall|k: int| 0 <= k < params.len() ==> 0x30 <= #[trigger] params[k] <= 0x3f,
        forall|k: int| 0 <= k < inters.len() ==> 0x20 <= #[trigger] inters[k] <= 0x2f,
    ensures
        has_reset(before + seq![0x1bu8]) == has_reset(before),
        has_reset(before + (seq![0x1bu8, 0x5bu8] + params + inters)) == has_reset(before),
{
    let lone = seq![0x1bu8];
    lemma_has_reset_step(lone);
    law_reset_of_parts(before, lone);
    let s = seq![0x1bu8, 0x5bu8] + params + inters;
    let p = 2 + params.len();
    assert forall|k: int| 0 <= k < params.len() implies is_parameter(#[trigger] s.skip(2)[k]) by {
        assert(s.skip(2)[k] == params[k]);
    }
    assert forall|k: int| 0 <= k < inters.len() implies is_intermediate(
        #[trigger] s.skip(p as int)[k],
    ) by {
        assert(s.skip(p as int)[k] == inters[k]);
    }
    if inters.len() > 0 {
        assert(s.skip(2)[params.len() as int] == inters[0]);
    }
    lemma_span(s.skip(2), |b: u8| is_parameter(b), params.len());
    lemma_span(s.skip(p as int), |b: u8| is_intermediate(b), inters.len());
    lemma_has_reset_step(s);
    law_reset_of_parts(before, s);
}

/// A control sequence that an `ESC` breaks off is no reset, and the sequence that the `ESC`
/// begins is seen for what it is.
pub proof fn law_broken_off_sequence_is_no_reset(
    before: Seq<u8>,
    params: Seq<u8>,
    inters: Seq<u8>,
    more: Seq<u8>,
)
    requires
        forall|k: int| 0 <= k < params.len() ==> 0x30 <= #[trigger] params[k] <= 0x3f,
        forall|k: int| 0 <= k < inters.len() ==> 0x20 <= #[trigger] inters[k] <= 0x2f,
        more.len() > 0,
        more[0] == 0x1b,
    ensures
        has_reset(before + seq![0x1bu8] + more) == (has_reset(before) || has_reset(more)),
        has_reset(before + (seq![0x1bu8, 0x5bu8] + params + inters) + more) == (has_reset(before)
            || has_reset(more)),
{
    law_open_sequence_is_no_reset(before, params, inters);
    law_reset_of_parts(before + seq![0x1bu8], more);
    law_reset_of_parts(before + (seq![0x1bu8, 0x5bu8] + params + inters), more);
}

} // verus!
