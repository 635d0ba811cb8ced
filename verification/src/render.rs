//! The renderer: a depth-first traversal that turns a size tree into
//! width-constrained, threshold-filtered, depth-limited colorized lines.

use vstd::prelude::*;
use crate::color::{Colorizer, TermColor, colorize_spec};
use crate::textfmt::{
    chars_of, string_from_chars, dec_digits, digit_char, comma_grouped, comma_chars,
    push_repeated, push_all, dec_chars, digit_to_char, left_justified, right_justified,
    push_left_justified, push_right_justified,
};
use crate::json::{JsonValue, struct_weight, weights_fit};
use crate::tree::{
    Node, builds, size_spec, node_wf, height_spec, resolve_depth_cap, resolved_cap,
    lemma_builds_height, lemma_builds_wf, lemma_sum_b_element_le, lemma_sum_c_element_le,
    lemma_child_size_le, lemma_height_take_step, lemma_height_take_le,
};
use crate::units::{Unit, human_bytes, human_si};

verus! {

/// The settings threaded through the traversal: the weighting unit, the
/// color policy, the optional absolute depth cap, and the target line width.
#[derive(Copy, Clone, Debug)]
pub struct DisplaySettings {
    pub counter: Unit,
    pub colorizer: Colorizer,
    pub depth: Option<usize>,
    pub width: usize,
}

/// One rendered line: the colorized header segment, the color to apply to
/// it, and the uncolored proportional bar.
pub struct RenderLine {
    pub header: String,
    pub color: TermColor,
    pub bar: String,
}

pub ghost struct LineView {
    pub header: Seq<char>,
    pub color: TermColor,
    pub bar: Seq<char>,
}

impl View for RenderLine {
    type V = LineView;

    open spec fn view(&self) -> LineView {
        LineView { header: self.header@, color: self.color, bar: self.bar@ }
    }
}

impl DeepView for RenderLine {
    type V = LineView;

    open spec fn deep_view(&self) -> LineView {
        self@
    }
}

/// The label column's width: two thirds of what remains of the line after
/// the 19 columns reserved for the numeric fields.
pub open spec fn label_width(width: int) -> int
    recommends
        width >= 23,
{
    (width - 19) * 2 / 3
}

/// The bar column's width: the rest of the line, less a two-column
/// separator.
pub open spec fn bar_width(width: int) -> int
    recommends
        width >= 23,
{
    width - 19 - label_width(width) - 2
}

/// A node's share of the total is below the threshold, both taken in
/// millionths of the total.
pub open spec fn below_threshold(sz: nat, total: nat, thr: nat) -> bool {
    sz * 1000000 < thr * total
}

/// The node's share of the total in hundredths of a percent, rounded to
/// the nearest.
pub open spec fn pct_hundredths(sz: nat, total: nat) -> nat
    recommends
        total > 0,
{
    ((20000 * sz + total) / (2 * total)) as nat
}

/// The percentage text: the whole percent, a point, and two fractional
/// digits.
pub open spec fn pct_text(h: nat) -> Seq<char> {
    dec_digits(h / 100) + seq!['.'] + seq![
        digit_char((h % 100) / 10),
        digit_char(h % 10),
    ]
}

/// The magnitude text under the unit: binary-scaled with a byte suffix, or
/// SI-scaled bare.
pub open spec fn mag_text(u: Unit, sz: nat) -> Seq<char> {
    match u {
        Unit::Bytes => human_bytes(sz),
        Unit::Children => human_si(sz),
    }
}

/// The raw label: two indent spaces per depth level, a comma-grouped
/// cardinality marker for an array, and the node's tag if it has one.
pub open spec fn raw_label(n: Node, depth: int) -> Seq<char> {
    let indent = Seq::new((2 * depth) as nat, |i: int| ' ');
    let card = if n.len > 0 {
        seq!['['] + comma_grouped(dec_digits(n.len as nat)) + seq![']', ' ']
    } else {
        Seq::<char>::empty()
    };
    let tag = match n.tag {
        Some(t) => t@,
        None => Seq::<char>::empty(),
    };
    indent + card + tag
}

/// The label as printed: truncated to two short of the column and closed
/// with an ellipsis when it would overflow the column.
pub open spec fn label_text(n: Node, depth: int, w_tag: int) -> Seq<char> {
    let raw = raw_label(n, depth);
    if raw.len() > w_tag {
        raw.take(w_tag - 2) + seq!['…']
    } else {
        raw
    }
}

/// The header segment of one line: the label left-justified in its column,
/// the percentage right-justified in six columns with a percent sign, and
/// the parenthesized magnitude right-justified in eleven.
pub open spec fn header_spec(n: Node, total: nat, depth: int, st: DisplaySettings) -> Seq<char> {
    let sz = size_spec(n, st.counter);
    left_justified(label_text(n, depth, label_width(st.width as int)), label_width(
        st.width as int,
    ) as nat) + seq![' '] + right_justified(pct_text(pct_hundredths(sz, total)), 6) + seq![
        '%',
        ' ',
    ] + right_justified(seq!['('] + mag_text(st.counter, sz) + seq![')'], 11)
}

/// The bar: one glyph per whole multiple of the bar column covered by the
/// node's share.
pub open spec fn bar_spec(n: Node, total: nat, st: DisplaySettings) -> Seq<char>
    recommends
        total > 0,
{
    let sz = size_spec(n, st.counter);
    Seq::new(((sz as int) * bar_width(st.width as int) / (total as int)) as nat, |i: int| '▒')
}

/// The one line a rendered node contributes.
pub open spec fn line_spec(n: Node, total: nat, depth: int, st: DisplaySettings) -> LineView {
    LineView {
        header: header_spec(n, total, depth, st),
        color: colorize_spec(st.colorizer, size_spec(n, st.counter), total),
        bar: bar_spec(n, total, st),
    }
}

/// Whether the depth cap stops this node.
pub open spec fn depth_capped(depth: int, st: DisplaySettings) -> bool {
    st.depth matches Some(cap) && depth >= cap
}

/// The lines rendered for a node: nothing when the depth cap stops it or
/// its share is below the threshold — pruning a node prunes its whole
/// subtree — else its own line followed by its children's lines, in order,
/// one level deeper.
pub open spec fn render_spec(
    n: Node,
    total: nat,
    depth: int,
    thr: nat,
    st: DisplaySettings,
) -> Seq<LineView>
    decreases n,
{
    if depth_capped(depth, st) {
        Seq::empty()
    } else if below_threshold(size_spec(n, st.counter), total, thr) {
        Seq::empty()
    } else {
        seq![line_spec(n, total, depth, st)] + match n.children {
            Some(cs) => render_children(cs@, total, depth + 1, thr, st),
            None => Seq::empty(),
        }
    }
}

pub open spec fn render_children(
    s: Seq<Node>,
    total: nat,
    depth: int,
    thr: nat,
    st: DisplaySettings,
) -> Seq<LineView>
    decreases s,
{
    if s.len() == 0 {
        Seq::empty()
    } else {
        render_children(s.drop_last(), total, depth, thr, st) + render_spec(
            s.last(),
            total,
            depth,
            thr,
            st,
        )
    }
}

pub proof fn lemma_render_children_take_step(
    s: Seq<Node>,
    i: int,
    total: nat,
    depth: int,
    thr: nat,
    st: DisplaySettings,
)
    requires
        0 <= i < s.len(),
    ensures
        render_children(s.take(i + 1), total, depth, thr, st) == render_children(
            s.take(i),
            total,
            depth,
            thr,
            st,
        ) + render_spec(s[i], total, depth, thr, st),
{
    assert(s.take(i + 1).drop_last() =~= s.take(i));
    assert(s.take(i + 1).last() == s[i]);
}

impl Node {
    /// Renders this node and, for an object, its subtree: skips the whole
    /// subtree when the depth cap stops it or its share of `total_size` is
    /// below `threshold` millionths, and otherwise appends one line and
    /// recurses one level deeper.
    #[verifier::loop_isolation(false)]
    #[verifier::rlimit(100)]
    pub fn render(
        &self,
        total_size: usize,
        depth: usize,
        threshold: u64,
        settings: &DisplaySettings,
        out: &mut Vec<RenderLine>,
    )
        requires
            total_size > 0,
            size_spec(*self, settings.counter) <= total_size,
            node_wf(*self),
            23 <= settings.width <= usize::MAX / 2,
            depth + height_spec(*self) <= usize::MAX / 2,
        ensures
            final(out).deep_view() == old(out).deep_view() + render_spec(
                *self,
                total_size as nat,
                depth as int,
                threshold as nat,
                *settings,
            ),
        decreases *self,
    {
        proof {
            assert(old(out).deep_view() + Seq::<LineView>::empty() =~= old(out).deep_view());
        }
        if let Some(cap) = settings.depth {
            if depth >= cap {
                return ;
            }
        }
        let w_tagline = ((settings.width - 19) * 2) / 3;
        let w_bar = settings.width - 19 - w_tagline - 2;
        proof {
            assert(2 <= (settings.width - 19) * 2 / 3 && (settings.width - 19) * 2 / 3 + 2
                <= settings.width - 19) by (nonlinear_arith)
                requires
                    settings.width >= 23,
            ;
        }
        let sz = self.size(settings.counter);
        proof {
            assert((sz as int) * 1000000 < 0x100000000000000000000000000000000)
                by (nonlinear_arith)
                requires
                    0 <= sz as int <= 0xffffffffffffffff,
            ;
            assert((threshold as int) * (total_size as int)
                < 0x100000000000000000000000000000000) by (nonlinear_arith)
                requires
                    0 <= threshold as int <= 0xffffffffffffffff,
                    0 <= total_size as int <= 0xffffffffffffffff,
            ;
            assert(20000 * (sz as int) + (total_size as int)
                < 0x100000000000000000000000000000000) by (nonlinear_arith)
                requires
                    0 <= sz as int <= 0xffffffffffffffff,
                    0 <= total_size as int <= 0xffffffffffffffff,
            ;
        }
        let below = (sz as u128) * 1000000u128 < (threshold as u128) * (total_size as u128);
        if below {
            return ;
        }
        // the raw label: indent, cardinality marker, tag
        let mut raw: Vec<char> = Vec::new();
        push_repeated(&mut raw, ' ', 2 * depth);
        if self.len > 0 {
            raw.push('[');
            let card = comma_chars(self.len);
            push_all(&mut raw, &card);
            raw.push(']');
            raw.push(' ');
        }
        match &self.tag {
            Some(t) => {
                let tv = chars_of(t.as_str());
                push_all(&mut raw, &tv);
            },
            None => {},
        }
        proof {
            assert(raw@ =~= raw_label(*self, depth as int));
        }
        // truncate to the label column
        let label: Vec<char> = if raw.len() > w_tagline {
            let keep = w_tagline - 2;
            let mut tr: Vec<char> = Vec::new();
            let mut i: usize = 0;
            while i < keep
                invariant
                    i <= keep,
                    tr@ == raw@.take(i as int),
                decreases keep - i,
            {
                tr.push(raw[i]);
                proof {
                    assert(raw@.take(i + 1) =~= raw@.take(i as int).push(raw@[i as int]));
                }
                i = i + 1;
            }
            tr.push('…');
            tr
        } else {
            raw
        };
        proof {
            assert(label@ =~= label_text(*self, depth as int, w_tagline as int));
        }
        // the header: label field, percentage field, magnitude field
        let mut header: Vec<char> = Vec::new();
        push_left_justified(&mut header, &label, w_tagline);
        header.push(' ');
        let denom: u128 = 2 * (total_size as u128);
        let h128: u128 = (20000u128 * (sz as u128) + (total_size as u128)) / denom;
        proof {
            assert((20000 * (sz as int) + total_size) / (2 * (total_size as int)) <= 10001)
                by (nonlinear_arith)
                requires
                    total_size > 0,
                    0 <= sz <= total_size,
            ;
        }
        let h = h128 as usize;
        let mut pct: Vec<char> = Vec::new();
        let ip = dec_chars(h / 100);
        push_all(&mut pct, &ip);
        pct.push('.');
        pct.push(digit_to_char((h % 100) / 10));
        pct.push(digit_to_char(h % 10));
        proof {
            assert(pct@ =~= pct_text(pct_hundredths(sz as nat, total_size as nat)));
        }
        push_right_justified(&mut header, &pct, 6);
        header.push('%');
        header.push(' ');
        let mag = settings.counter.format(sz);
        let magv = chars_of(mag.as_str());
        let mut paren: Vec<char> = Vec::new();
        paren.push('(');
        push_all(&mut paren, &magv);
        paren.push(')');
        proof {
            assert(paren@ =~= seq!['('] + mag_text(settings.counter, sz as nat) + seq![')']);
        }
        push_right_justified(&mut header, &paren, 11);
        proof {
            assert(header@ =~= header_spec(
                *self,
                total_size as nat,
                depth as int,
                *settings,
            ));
        }
        // the bar
        proof {
            assert((sz as int) * (w_bar as int) < 0x100000000000000000000000000000000)
                by (nonlinear_arith)
                requires
                    0 <= sz as int <= 0xffffffffffffffff,
                    0 <= w_bar as int <= 0xffffffffffffffff,
            ;
        }
        let bar128: u128 = (sz as u128) * (w_bar as u128) / (total_size as u128);
        proof {
            assert((sz as int) * (w_bar as int) / (total_size as int) <= w_bar)
                by (nonlinear_arith)
                requires
                    total_size > 0,
                    0 <= sz <= total_size,
                    w_bar >= 0,
            ;
        }
        let bar_len = bar128 as usize;
        let mut barv: Vec<char> = Vec::new();
        push_repeated(&mut barv, '▒', bar_len);
        proof {
            assert(barv@ =~= bar_spec(*self, total_size as nat, *settings));
        }
        let color = settings.colorizer.colorize(sz, total_size);
        out.push(
            RenderLine { header: string_from_chars(&header), color, bar: string_from_chars(&barv) },
        );
        proof {
            assert(out.deep_view() =~= old(out).deep_view() + seq![
                line_spec(*self, total_size as nat, depth as int, *settings),
            ]);
        }
        // recurse into retained children, in order, one level deeper
        if let Some(cs) = &self.children {
            let ghost base = out.deep_view();
            let mut i: usize = 0;
            while i < cs.len()
                invariant
                    i <= cs@.len(),
                    out.deep_view() == base + render_children(
                        cs@.take(i as int),
                        total_size as nat,
                        depth as int + 1,
                        threshold as nat,
                        *settings,
                    ),
                decreases cs@.len() - i,
            {
                proof {
                    lemma_render_children_take_step(
                        cs@,
                        i as int,
                        total_size as nat,
                        depth as int + 1,
                        threshold as nat,
                        *settings,
                    );
                    match settings.counter {
                        Unit::Bytes => lemma_sum_b_element_le(cs@, i as int),
                        Unit::Children => lemma_sum_c_element_le(cs@, i as int),
                    }
                    lemma_height_take_step(cs@, i as int);
                    lemma_height_take_le(cs@, i as int + 1);
                }
                cs[i].render(total_size, depth + 1, threshold, settings, out);
                i = i + 1;
            }
            proof {
                assert(cs@.take(cs@.len() as int) =~= cs@);
            }
        }
        proof {
            assert(out.deep_view() =~= old(out).deep_view() + render_spec(
                *self,
                total_size as nat,
                depth as int,
                threshold as nat,
                *settings,
            ));
        }
    }
}

/// Truncation law: the printed label never exceeds the label column; when
/// the raw label overflows the column, exactly the first two-short-of-the-
/// column characters are kept and one ellipsis character is appended.
pub proof fn lemma_label_fits(n: Node, depth: int, w_tag: int)
    requires
        w_tag >= 2,
        depth >= 0,
    ensures
        label_text(n, depth, w_tag).len() <= w_tag,
        raw_label(n, depth).len() > w_tag ==> label_text(n, depth, w_tag) == raw_label(
            n,
            depth,
        ).take(w_tag - 2) + seq!['\u{2026}'] && label_text(n, depth, w_tag).len() == w_tag - 1,
        raw_label(n, depth).len() <= w_tag ==> label_text(n, depth, w_tag) == raw_label(n, depth),
{
}

/// Monotonic pruning safety: under either unit, whenever a well-formed
/// parent's share of the total falls below the threshold, so does the share
/// of each retained child — cutting recursion at a sub-threshold node can
/// never hide a descendant that is at or above the threshold.
pub proof fn lemma_pruning_safe(
    p: Node,
    cs: Vec<Node>,
    i: int,
    u: Unit,
    total: nat,
    thr: nat,
)
    requires
        node_wf(p),
        p.children == Some(cs),
        0 <= i < cs@.len(),
        below_threshold(size_spec(p, u), total, thr),
    ensures
        below_threshold(size_spec(cs@[i], u), total, thr),
{
    lemma_child_size_le(p, cs, i, u);
    assert(size_spec(cs@[i], u) * 1000000 <= size_spec(p, u) * 1000000);
}

/// Renders a whole document from its root: nothing at all when the root's
/// weight under the selected unit is zero, else the root's subtree against
/// that weight as the total.
pub fn render_root(root: &Node, threshold: u64, settings: &DisplaySettings) -> (out: Vec<
    RenderLine,
>)
    requires
        node_wf(*root),
        23 <= settings.width <= usize::MAX / 2,
        height_spec(*root) <= usize::MAX / 2,
    ensures
        size_spec(*root, settings.counter) == 0 ==> out.deep_view() == Seq::<LineView>::empty(),
        size_spec(*root, settings.counter) > 0 ==> out.deep_view() == render_spec(
            *root,
            size_spec(*root, settings.counter),
            0,
            threshold as nat,
            *settings,
        ),
{
    let mut out: Vec<RenderLine> = Vec::new();
    let total = root.size(settings.counter);
    if total > 0 {
        root.render(total, 0, threshold, settings, &mut out);
        proof {
            assert(Seq::<LineView>::empty() + render_spec(
                *root,
                total as nat,
                0,
                threshold as nat,
                *settings,
            ) =~= render_spec(*root, total as nat, 0, threshold as nat, *settings));
        }
    }
    out
}

/// The settings a whole run works under: as given, with the depth request
/// resolved against the built tree's true maximum depth.
pub open spec fn resolved_settings(
    root: Node,
    unit: Unit,
    colorizer: Colorizer,
    depth_req: Option<isize>,
    width: usize,
) -> DisplaySettings {
    DisplaySettings {
        counter: unit,
        colorizer,
        depth: match depth_req {
            Some(d) => Some(resolved_cap(d as int, height_spec(root)) as usize),
            None => None,
        },
        width,
    }
}

/// The whole pipeline on a parsed document: builds the size tree under the
/// root label, resolves the depth request against the tree's true depth,
/// and renders — nothing when the root weighs nothing under the unit.
pub fn render_document(
    v: &JsonValue,
    threshold: u64,
    unit: Unit,
    colorizer: Colorizer,
    depth_req: Option<isize>,
    width: usize,
) -> (r: (Node, Vec<RenderLine>))
    requires
        weights_fit(*v, 0),
        struct_weight(*v) < usize::MAX / 2,
        23 <= width <= usize::MAX / 2,
    ensures
        builds(*v, 0, "Root"@, r.0),
        node_wf(r.0),
        ({
            let st = resolved_settings(r.0, unit, colorizer, depth_req, width);
            &&& size_spec(r.0, unit) == 0 ==> r.1.deep_view() == Seq::<LineView>::empty()
            &&& size_spec(r.0, unit) > 0 ==> r.1.deep_view() == render_spec(
                r.0,
                size_spec(r.0, unit),
                0,
                threshold as nat,
                st,
            )
        }),
{
    let root = Node::from_json(v, 0, "Root".to_owned());
    proof {
        lemma_builds_wf(*v, 0, "Root"@, root);
        lemma_builds_height(*v, 0, "Root"@, root);
    }
    let depth = match depth_req {
        Some(d) => Some(resolve_depth_cap(d, root.max_depth())),
        None => None,
    };
    let settings = DisplaySettings { counter: unit, colorizer, depth, width };
    let lines = render_root(&root, threshold, &settings);
    (root, lines)
}

} // verus!
