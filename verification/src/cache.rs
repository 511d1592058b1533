//! The cache of stream positions that the portal does not report.
use crate::display::{Displays, WaylandDisplayInfo};
use crate::text::{decimal, digit_char, push_i32, signed_decimal};
use vstd::prelude::*;

verus! {

/// Positions that were found for a layout and a grant of the portal.
///
/// The layout is part of the cache, because the portal may restore a grant silently after a
/// monitor was attached, and then share another screen.
#[derive(Debug)]
pub struct PipewireDisplayOffsetCache {
    pub display_key: String,
    pub restore_token: String,
    pub offsets: Vec<(i32, i32)>,
}

/// One display as text: `name-x-y-width-height`.
pub open spec fn display_text(d: WaylandDisplayInfo) -> Seq<char> {
    d.name@ + seq!['-'] + signed_decimal(d.x as int) + seq!['-'] + signed_decimal(d.y as int)
        + seq!['-'] + signed_decimal(d.width as int) + seq!['-'] + signed_decimal(d.height as int)
}

/// A layout as text: its displays in order, separated by `;`.
pub open spec fn layout_text(ds: Seq<WaylandDisplayInfo>) -> Seq<char>
    decreases ds.len(),
{
    if ds.len() == 0 {
        seq![]
    } else if ds.len() == 1 {
        display_text(ds[0])
    } else {
        layout_text(ds.drop_last()) + seq![';'] + display_text(ds.last())
    }
}

fn push_field(out: &mut String, n: i32)
    ensures
        final(out)@ == old(out)@ + seq!['-'] + signed_decimal(n as int),
{
    proof {
        reveal_strlit("-");
    }
    out.append("-");
    push_i32(out, n);
}

impl PipewireDisplayOffsetCache {
    /// All displays as one text, for easy comparison.
    pub fn displays_to_key(displays: &Displays) -> (r: String)
        ensures
            r@ == layout_text(displays.displays@),
    {
        let ds: &Vec<WaylandDisplayInfo> = &displays.displays;
        let mut out: String = String::new();
        let mut i: usize = 0;
        while i < ds.len()
            invariant
                i <= ds.len(),
                out@ == layout_text(ds@.take(i as int)),
            decreases ds.len() - i,
        {
            if i > 0 {
                proof {
                    reveal_strlit(";");
                }
                out.append(";");
            }
            let d: &WaylandDisplayInfo = &ds[i];
            out.append(d.name.as_str());
            push_field(&mut out, d.x);
            push_field(&mut out, d.y);
            push_field(&mut out, d.width);
            push_field(&mut out, d.height);
            assert(ds@.take(i + 1).drop_last() =~= ds@.take(i as int));
            assert(ds@.take(i + 1).last() == ds@[i as int]);
            i = i + 1;
        }
        assert(ds@.take(ds@.len() as int) =~= ds@);
        out
    }
}

/// A digit, as it stands in a decimal number.
pub open spec fn is_digit(c: char) -> bool {
    '0' <= c <= '9'
}

proof fn lemma_decimal_digits(n: nat)
    ensures
        decimal(n).len() > 0,
        forall|i: int| 0 <= i < decimal(n).len() ==> is_digit(#[trigger] decimal(n)[i]),
    decreases n,
{
    if n >= 10 {
        lemma_decimal_digits(n / 10);
    }
}

proof fn lemma_decimal_injective(a: nat, b: nat)
    requires
        decimal(a) == decimal(b),
    ensures
        a == b,
    decreases a,
{
    lemma_decimal_digits(a / 10);
    lemma_decimal_digits(b / 10);
    if a < 10 && b < 10 {
        assert(decimal(a)[0] == digit_char(a) && decimal(b)[0] == digit_char(b));
        assert(digit_char(a) as int == 48 + a && digit_char(b) as int == 48 + b);
    } else if a < 10 {
        assert(decimal(a).len() == 1 && decimal(b).len() >= 2);
    } else if b < 10 {
        assert(decimal(b).len() == 1 && decimal(a).len() >= 2);
    } else {
        assert(decimal(a).last() == decimal(b).last());
        assert(digit_char(a % 10) as int == 48 + a % 10);
        assert(digit_char(b % 10) as int == 48 + b % 10);
        assert(decimal(a).drop_last() =~= decimal(a / 10));
        assert(decimal(b).drop_last() =~= decimal(b / 10));
        lemma_decimal_injective(a / 10, b / 10);
        assert(decimal(a).last() == digit_char(a % 10) && decimal(b).last() == digit_char(b % 10));
        assert(a == 10 * (a / 10) + a % 10 && b == 10 * (b / 10) + b % 10);
    }
}

proof fn lemma_signed_shape(n: int)
    ensures
        signed_decimal(n).len() > 0,
        is_digit(signed_decimal(n).last()),
        forall|i: int|
            1 <= i < signed_decimal(n).len() ==> is_digit(#[trigger] signed_decimal(n)[i]),
        signed_decimal(n)[0] == '-' || is_digit(signed_decimal(n)[0]),
{
    if n < 0 {
        lemma_decimal_digits((-n) as nat);
    } else {
        lemma_decimal_digits(n as nat);
    }
}

proof fn lemma_signed_injective(a: int, b: int)
    requires
        signed_decimal(a) == signed_decimal(b),
    ensures
        a == b,
{
    if a < 0 && b < 0 {
        assert(signed_decimal(a).drop_first() =~= decimal((-a) as nat));
        assert(signed_decimal(b).drop_first() =~= decimal((-b) as nat));
        lemma_decimal_injective((-a) as nat, (-b) as nat);
    } else if a < 0 {
        lemma_decimal_digits(b as nat);
        assert(signed_decimal(a)[0] == '-');
    } else if b < 0 {
        lemma_decimal_digits(a as nat);
        assert(signed_decimal(b)[0] == '-');
    } else {
        lemma_decimal_injective(a as nat, b as nat);
    }
}

/// The text does not end in `-`.
pub open spec fn no_trailing_dash(s: Seq<char>) -> bool {
    s.len() == 0 || s.last() != '-'
}

/// A last field, set off by `-`, is told apart from what stands before it.
proof fn lemma_peel_field(p: Seq<char>, a: int, q: Seq<char>, b: int)
    requires
        p + seq!['-'] + signed_decimal(a) == q + seq!['-'] + signed_decimal(b),
        no_trailing_dash(p),
        no_trailing_dash(q),
    ensures
        p == q,
        a == b,
{
    let (s, t) = (signed_decimal(a), signed_decimal(b));
    let whole = p + seq!['-'] + s;
    assert(whole == q + seq!['-'] + t);
    lemma_signed_shape(a);
    lemma_signed_shape(b);
    if s.len() == t.len() {
        assert(s =~= whole.skip(p.len() + 1int));
        assert(t =~= whole.skip(q.len() + 1int));
        assert(p =~= whole.take(p.len() as int));
        assert(q =~= whole.take(q.len() as int));
        lemma_signed_injective(a, b);
    } else if s.len() < t.len() {
        assert(whole[p.len() as int] == '-');
        assert(whole[p.len() as int] == t[p.len() - q.len() - 1]);
        assert(t.len() == s.len() + 1);
        assert(whole[q.len() as int] == '-');
        assert(p.last() == whole[q.len() as int]);
    } else {
        assert(whole[q.len() as int] == '-');
        assert(whole[q.len() as int] == s[q.len() - p.len() - 1]);
        assert(s.len() == t.len() + 1);
        assert(whole[p.len() as int] == '-');
        assert(q.last() == whole[p.len() as int]);
    }
}

/// The layout fields of two displays are the same.
pub open spec fn same_place(d: WaylandDisplayInfo, e: WaylandDisplayInfo) -> bool {
    d.name@ == e.name@ && d.x == e.x && d.y == e.y && d.width == e.width && d.height == e.height
}

proof fn lemma_display_text_injective(d: WaylandDisplayInfo, e: WaylandDisplayInfo)
    requires
        display_text(d) == display_text(e),
        no_trailing_dash(d.name@),
        no_trailing_dash(e.name@),
    ensures
        same_place(d, e),
{
    let d1 = d.name@ + seq!['-'] + signed_decimal(d.x as int);
    let d2 = d1 + seq!['-'] + signed_decimal(d.y as int);
    let d3 = d2 + seq!['-'] + signed_decimal(d.width as int);
    let e1 = e.name@ + seq!['-'] + signed_decimal(e.x as int);
    let e2 = e1 + seq!['-'] + signed_decimal(e.y as int);
    let e3 = e2 + seq!['-'] + signed_decimal(e.width as int);
    lemma_signed_shape(d.x as int);
    lemma_signed_shape(d.y as int);
    lemma_signed_shape(d.width as int);
    lemma_signed_shape(e.x as int);
    lemma_signed_shape(e.y as int);
    lemma_signed_shape(e.width as int);
    lemma_peel_field(d3, d.height as int, e3, e.height as int);
    lemma_peel_field(d2, d.width as int, e2, e.width as int);
    lemma_peel_field(d1, d.y as int, e1, e.y as int);
    lemma_peel_field(d.name@, d.x as int, e.name@, e.x as int);
}

/// The name holds no `;` and does not end in `-`.
pub open spec fn plain_name(s: Seq<char>) -> bool {
    !s.contains(';') && no_trailing_dash(s)
}

proof fn lemma_display_text_plain(d: WaylandDisplayInfo)
    requires
        plain_name(d.name@),
    ensures
        display_text(d).len() > 0,
        !display_text(d).contains(';'),
{
    lemma_signed_shape(d.x as int);
    lemma_signed_shape(d.y as int);
    lemma_signed_shape(d.width as int);
    lemma_signed_shape(d.height as int);
    let t = display_text(d);
    assert forall|i: int| 0 <= i < t.len() implies t[i] != ';' by {
        if i < d.name@.len() {
            assert(t[i] == d.name@[i]);
        }
    }
}

proof fn lemma_last_segment(p: Seq<char>, s: Seq<char>, q: Seq<char>, t: Seq<char>)
    requires
        p + seq![';'] + s == q + seq![';'] + t,
        !s.contains(';'),
        !t.contains(';'),
    ensures
        p == q,
        s == t,
{
    let whole = p + seq![';'] + s;
    assert(whole == q + seq![';'] + t);
    assert(whole[p.len() as int] == ';' && whole[q.len() as int] == ';');
    if s.len() < t.len() {
        assert(t[p.len() - q.len() - 1] == ';');
    } else if t.len() < s.len() {
        assert(s[q.len() - p.len() - 1] == ';');
    }
    assert(p =~= whole.take(p.len() as int));
    assert(q =~= whole.take(q.len() as int));
    assert(s =~= whole.skip(p.len() + 1int));
    assert(t =~= whole.skip(q.len() + 1int));
}

/// Two layouts have the same key exactly when they hold the same displays in the same order,
/// told by name, position and size in pixels. The names may hold no `;` and not end in `-`,
/// the characters by which a key is divided.
pub proof fn law_key_identifies_layout(ds: Seq<WaylandDisplayInfo>, es: Seq<WaylandDisplayInfo>)
    requires
        forall|i: int| 0 <= i < ds.len() ==> plain_name((#[trigger] ds[i]).name@),
        forall|i: int| 0 <= i < es.len() ==> plain_name((#[trigger] es[i]).name@),
    ensures
        layout_text(ds) == layout_text(es) <==> {
            &&& ds.len() == es.len()
            &&& forall|i: int| 0 <= i < ds.len() ==> same_place(#[trigger] ds[i], es[i])
        },
    decreases ds.len(),
{
    let same = ds.len() == es.len() && forall|i: int|
        0 <= i < ds.len() ==> same_place(#[trigger] ds[i], es[i]);
    if ds.len() > 0 {
        lemma_display_text_plain(ds.last());
    }
    if es.len() > 0 {
        lemma_display_text_plain(es.last());
    }
    if ds.len() > 0 && es.len() > 0 {
        law_key_identifies_layout(ds.drop_last(), es.drop_last());
        let (p, s) = (layout_text(ds.drop_last()), display_text(ds.last()));
        let (q, t) = (layout_text(es.drop_last()), display_text(es.last()));
        assert(ds =~= ds.drop_last().push(ds.last()));
        assert(es =~= es.drop_last().push(es.last()));
        if layout_text(ds) == layout_text(es) {
            if ds.len() == 1 && es.len() == 1 {
                lemma_display_text_injective(ds.last(), es.last());
            } else if ds.len() == 1 {
                assert((q + seq![';'] + t)[q.len() as int] == ';');
                assert(s.contains(';'));
            } else if es.len() == 1 {
                assert((p + seq![';'] + s)[p.len() as int] == ';');
                assert(t.contains(';'));
            } else {
                lemma_last_segment(p, s, q, t);
                lemma_display_text_injective(ds.last(), es.last());
            }
            assert(same_place(ds.last(), es.last()));
            assert forall|i: int| 0 <= i < ds.len() implies same_place(#[trigger] ds[i], es[i]) by {
                if i < ds.len() - 1 {
                    assert(same_place(ds.drop_last()[i], es.drop_last()[i]));
                }
            }
        }
        if same {
            assert(same_place(ds[ds.len() - 1], es[ds.len() - 1]));
            assert forall|i: int| 0 <= i < ds.drop_last().len() implies same_place(
                #[trigger] ds.drop_last()[i],
                es.drop_last()[i],
            ) by {
                assert(same_place(ds[i], es[i]));
            }
        }
    } else if ds.len() > 0 {
        assert(layout_text(ds).len() > 0);
    } else if es.len() > 0 {
        assert(layout_text(es).len() > 0);
    }
}

/// The key of a layout is written display by display: `name-x-y-width-height`, and a `;` before
/// each but the first.
pub proof fn law_key_is_written_display_by_display(
    ds: Seq<WaylandDisplayInfo>,
    d: WaylandDisplayInfo,
)
    ensures
        layout_text(Seq::<WaylandDisplayInfo>::empty()).len() == 0,
        ({
            let text = d.name@ + seq!['-'] + signed_decimal(d.x as int) + seq!['-']
                + signed_decimal(d.y as int) + seq!['-'] + signed_decimal(d.width as int)
                + seq!['-'] + signed_decimal(d.height as int);
            &&& layout_text(seq![d]) == text
            &&& ds.len() > 0 ==> layout_text(ds.push(d)) == layout_text(ds) + seq![';'] + text
        }),
{
    assert(ds.push(d).drop_last() =~= ds);
}

} // verus!
