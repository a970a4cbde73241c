//! CSS `rgb()` color notation: `rgb(r, g, b)`.
//!
//! The reader skips the first four characters (the `rgb(` prefix), then scans
//! the rest one character at a time: spaces are skipped, digits accumulate in
//! a per-component buffer, a `,` stores the buffer into the current channel
//! and moves on to the next, and a `)` stops the scan. A buffer is read as
//! an unsigned 8-bit integer — an optional leading `+`, then digits — and a
//! reading that fails (empty, a stray character, a value over 255) stores
//! the fallback 0. Note that a channel is stored only when a `,` follows it,
//! so in the usual `rgb(r, g, b)` shape the blue buffer is still pending
//! when `)` arrives and blue stays 0; a trailing comma before the `)` stores
//! it. That quirk is deliberate here: [`lemma_css_rgb_shape`] states it
//! exactly, and the scan is kept as it is rather than flushing the pending
//! buffer at the `)`.

use crate::Color;
use vstd::prelude::*;

verus! {

/// Whether `c` is a decimal digit `0-9`.
pub open spec fn is_dec_digit(c: char) -> bool {
    ('0' as u32) <= (c as u32) <= ('9' as u32)
}

/// The numeric value of the decimal digit `c`.
pub open spec fn dec_digit_value(c: char) -> int
    recommends
        is_dec_digit(c),
{
    (c as u32) - ('0' as u32)
}

/// Whether every character of `s` is a decimal digit.
pub open spec fn all_dec_digits(s: Seq<char>) -> bool {
    forall|i: int| 0 <= i < s.len() ==> is_dec_digit(#[trigger] s[i])
}

/// The number the digit string `s` writes in decimal.
pub open spec fn dec_value(s: Seq<char>) -> int
    recommends
        all_dec_digits(s),
    decreases s.len(),
{
    if s.len() == 0 {
        0
    } else {
        dec_value(s.drop_last()) * 10 + dec_digit_value(s.last())
    }
}

/// The digits of a component buffer: the buffer itself, or the rest of it
/// when it opens with the `+` sign that an unsigned reading tolerates.
pub open spec fn component_digits(buf: Seq<char>) -> Seq<char> {
    if buf.len() > 0 && buf[0] == '+' {
        buf.drop_first()
    } else {
        buf
    }
}

/// The channel value a component buffer stores: its reading as an unsigned
/// 8-bit integer (an optional leading `+`, then a nonempty digit string
/// whose value fits the channel), and the fallback 0 when that reading
/// fails.
pub open spec fn component_value(buf: Seq<char>) -> u8 {
    let digits = component_digits(buf);
    if digits.len() > 0 && all_dec_digits(digits) && dec_value(digits) <= 255 {
        dec_value(digits) as u8
    } else {
        0
    }
}

/// `c` with channel `idx` (0 red, 1 green, 2 and above blue) set to `v`.
pub open spec fn store_channel(c: Color, idx: int, v: u8) -> Color {
    if idx == 0 {
        Color(v, c.1, c.2)
    } else if idx == 1 {
        Color(c.0, v, c.2)
    } else {
        Color(c.0, c.1, v)
    }
}

/// One step of the `rgb()` scan, from position `i` of `s` with the channel
/// cursor `idx`, the pending component buffer `buf`, and the channels read so
/// far `c`; see the module doc for the rules it follows.
pub open spec fn scan_from(s: Seq<char>, i: int, idx: int, buf: Seq<char>, c: Color) -> Color
    decreases s.len() - i,
{
    if i < 0 || i >= s.len() {
        c
    } else if s[i] == ' ' {
        scan_from(s, i + 1, idx, buf, c)
    } else if s[i] == ')' {
        c
    } else if s[i] == ',' {
        scan_from(s, i + 1, idx + 1, Seq::empty(), store_channel(c, idx, component_value(buf)))
    } else {
        scan_from(s, i + 1, idx, buf.push(s[i]), c)
    }
}

/// The color the CSS `rgb()` input `s` denotes: the scan of `s` past its
/// four-character prefix, starting from black.
pub open spec fn spec_from_css_rgb(s: Seq<char>) -> Color {
    scan_from(s, 4, 0, Seq::empty(), Color(0, 0, 0))
}

/// Whether `s` is free of the three characters the scan acts on, so that a
/// run of `s` accumulates into the component buffer unchanged.
pub open spec fn scan_plain(s: Seq<char>) -> bool {
    forall|i: int| 0 <= i < s.len() ==> #[trigger] s[i] != ' ' && s[i] != ',' && s[i] != ')'
}

/// A run of plain characters only grows the component buffer.
proof fn lemma_scan_plain_run(s: Seq<char>, i: int, j: int, idx: int, buf: Seq<char>, c: Color)
    requires
        0 <= i <= j <= s.len(),
        forall|k: int| i <= k < j ==> #[trigger] s[k] != ' ' && s[k] != ',' && s[k] != ')',
    ensures
        scan_from(s, i, idx, buf, c) == scan_from(s, j, idx, buf + s.subrange(i, j), c),
    decreases j - i,
{
    if i < j {
        lemma_scan_plain_run(s, i + 1, j, idx, buf.push(s[i]), c);
        assert(buf.push(s[i]) + s.subrange(i + 1, j) =~= buf + s.subrange(i, j));
    } else {
        assert(buf + s.subrange(i, i) =~= buf);
    }
}

/// A plain component followed by a `,` is stored into the current channel,
/// and the scan moves past the comma with an empty buffer.
proof fn lemma_scan_stored_component(s: Seq<char>, i: int, idx: int, c: Color, comp: Seq<char>)
    requires
        0 <= i,
        i + comp.len() + 1 <= s.len(),
        scan_plain(comp),
        s.subrange(i, i + comp.len()) == comp,
        s[i + comp.len()] == ',',
    ensures
        scan_from(s, i, idx, Seq::empty(), c) == scan_from(
            s,
            i + comp.len() + 1,
            idx + 1,
            Seq::empty(),
            store_channel(c, idx, component_value(comp)),
        ),
{
    assert forall|k: int| i <= k < i + comp.len() implies #[trigger] s[k] != ' ' && s[k] != ','
        && s[k] != ')' by {
        assert(s[k] == comp[k - i]);
    }
    lemma_scan_plain_run(s, i, i + comp.len(), idx, Seq::empty(), c);
    assert(Seq::empty() + s.subrange(i, i + comp.len()) =~= comp);
}

/// A plain component followed by a `)` ends the scan with the channels as
/// they stand: the pending buffer is never stored.
proof fn lemma_scan_pending_component(s: Seq<char>, i: int, idx: int, c: Color, comp: Seq<char>)
    requires
        0 <= i,
        i + comp.len() + 1 <= s.len(),
        scan_plain(comp),
        s.subrange(i, i + comp.len()) == comp,
        s[i + comp.len()] == ')',
    ensures
        scan_from(s, i, idx, Seq::empty(), c) == c,
{
    assert forall|k: int| i <= k < i + comp.len() implies #[trigger] s[k] != ' ' && s[k] != ','
        && s[k] != ')' by {
        assert(s[k] == comp[k - i]);
    }
    lemma_scan_plain_run(s, i, i + comp.len(), idx, Seq::empty(), c);
}

/// What the scan makes of the canonical notation `rgb(c1,c2,c3)`, for any
/// plain components: red and green are stored by their commas, while blue is
/// still pending in the buffer when the `)` arrives, so it stays 0. A
/// trailing comma before the `)` — `rgb(c1,c2,c3,)` — stores blue too.
pub proof fn lemma_css_rgb_shape(c1: Seq<char>, c2: Seq<char>, c3: Seq<char>)
    requires
        scan_plain(c1),
        scan_plain(c2),
        scan_plain(c3),
    ensures
        spec_from_css_rgb("rgb("@ + c1 + ","@ + c2 + ","@ + c3 + ")"@) == Color(
            component_value(c1),
            component_value(c2),
            0,
        ),
        spec_from_css_rgb("rgb("@ + c1 + ","@ + c2 + ","@ + c3 + ",)"@) == Color(
            component_value(c1),
            component_value(c2),
            component_value(c3),
        ),
{
    reveal_strlit("rgb(");
    reveal_strlit(",");
    reveal_strlit(")");
    reveal_strlit(",)");
    let black = Color(0, 0, 0);
    let i2 = 5 + c1.len() as int;
    let i3 = 6 + (c1.len() + c2.len()) as int;
    let end = 6 + (c1.len() + c2.len() + c3.len()) as int;
    let s = "rgb("@ + c1 + ","@ + c2 + ","@ + c3 + ")"@;
    assert(s.subrange(4, 4 + c1.len() as int) =~= c1);
    assert(s.subrange(i2, i2 + c2.len()) =~= c2);
    assert(s.subrange(i3, i3 + c3.len()) =~= c3);
    lemma_scan_stored_component(s, 4, 0, black, c1);
    lemma_scan_stored_component(s, i2, 1, Color(component_value(c1), 0, 0), c2);
    lemma_scan_pending_component(
        s,
        i3,
        2,
        Color(component_value(c1), component_value(c2), 0),
        c3,
    );
    let t = "rgb("@ + c1 + ","@ + c2 + ","@ + c3 + ",)"@;
    assert(t.subrange(4, 4 + c1.len() as int) =~= c1);
    assert(t.subrange(i2, i2 + c2.len()) =~= c2);
    assert(t.subrange(i3, i3 + c3.len()) =~= c3);
    lemma_scan_stored_component(t, 4, 0, black, c1);
    lemma_scan_stored_component(t, i2, 1, Color(component_value(c1), 0, 0), c2);
    lemma_scan_stored_component(
        t,
        i3,
        2,
        Color(component_value(c1), component_value(c2), 0),
        c3,
    );
    assert(t[end + 1] == ')');
}

/// The decimal digit `c` stands for, or `None` when `c` is no digit.
fn dec_digit(c: char) -> (r: Option<u8>)
    ensures
        r is Some <==> is_dec_digit(c),
        r is Some ==> r->Some_0 == dec_digit_value(c) && r->Some_0 < 10,
{
    let v = c as u32;
    if ('0' as u32) <= v && v <= ('9' as u32) {
        Some((v - ('0' as u32)) as u8)
    } else {
        None
    }
}

/// The channel value of the component buffer `buf`, as
/// [`component_value`] states it.
fn parse_component(buf: &Vec<char>) -> (v: u8)
    ensures
        v == component_value(buf@),
{
    let n = buf.len();
    let start: usize = if n > 0 && buf[0] == '+' {
        1
    } else {
        0
    };
    proof {
        assert(component_digits(buf@) =~= buf@.subrange(start as int, n as int));
    }
    let mut digits_ok = true;
    let mut big = false;
    let mut acc: u32 = 0;
    let mut j: usize = start;
    while j < n
        invariant
            n == buf@.len(),
            start <= j <= n,
            digits_ok <==> all_dec_digits(buf@.subrange(start as int, j as int)),
            digits_ok && !big ==> acc == dec_value(buf@.subrange(start as int, j as int)) && acc
                <= 255,
            digits_ok && big ==> dec_value(buf@.subrange(start as int, j as int)) > 255,
        decreases n - j,
    {
        let ghost prefix = buf@.subrange(start as int, j as int);
        let ghost extended = buf@.subrange(start as int, j + 1);
        let c = buf[j];
        proof {
            assert(extended.drop_last() =~= prefix);
            assert(extended.last() == c);
            if digits_ok {
                if is_dec_digit(c) {
                    assert forall|i: int| 0 <= i < extended.len() implies is_dec_digit(
                        #[trigger] extended[i],
                    ) by {
                        if i < prefix.len() {
                            assert(extended[i] == prefix[i]);
                        }
                    }
                } else {
                    assert(!is_dec_digit(extended[extended.len() - 1]));
                }
            } else {
                let i0 = choose|i: int| 0 <= i < prefix.len() && !is_dec_digit(
                    #[trigger] prefix[i],
                );
                assert(extended[i0] == prefix[i0]);
                assert(!is_dec_digit(extended[i0]));
            }
        }
        match dec_digit(c) {
            Some(d) => {
                if digits_ok && !big {
                    let next = acc * 10 + (d as u32);
                    if next > 255 {
                        big = true;
                    } else {
                        acc = next;
                    }
                }
            },
            None => {
                digits_ok = false;
            },
        }
        j = j + 1;
    }
    if digits_ok && !big && n > start {
        acc as u8
    } else {
        0
    }
}

impl Color {
    /// Get a color from a CSS rgb function.
    ///
    /// Never fails: malformed components fall back to 0, and a blue channel
    /// that no comma stores stays 0 (see the module doc).
    pub fn from_css_rgb(rgb: &str) -> (c: Color)
        ensures
            c == spec_from_css_rgb(rgb@),
    {
        let n = rgb.unicode_len();
        let mut color = Color(0, 0, 0);
        let mut buf: Vec<char> = Vec::new();
        let mut idx: usize = 0;
        let mut i: usize = 4;
        while i < n && rgb.get_char(i) != ')'
            invariant
                n == rgb@.len(),
                i >= 4,
                i <= n || i == 4,
                idx <= i,
                spec_from_css_rgb(rgb@) == scan_from(rgb@, i as int, idx as int, buf@, color),
            decreases n - i,
        {
            let ch = rgb.get_char(i);
            if ch == ' ' {
                // skipped
            } else if ch == ',' {
                let v = parse_component(&buf);
                if idx == 0 {
                    color = Color(v, color.1, color.2);
                } else if idx == 1 {
                    color = Color(color.0, v, color.2);
                } else {
                    color = Color(color.0, color.1, v);
                }
                idx = idx + 1;
                buf = Vec::new();
            } else {
                buf.push(ch);
            }
            i = i + 1;
        }
        color
    }
}

} // verus!
