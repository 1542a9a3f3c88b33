//! PDF content for border sides: translucency groups, dash resets and the
//! grouping of connected equal-colour solid sides into single fills.

use vstd::prelude::*;
use crate::border::{BorderStyle, LayoutBorderSide, PhysicalEdges, PhysicalSide};
use crate::pdf_text::{decimal, push_decimal, push_text};

verus! {

/// The operators that restore a solid stroke after a patterned one.
pub open spec fn dash_reset_text(style: BorderStyle) -> Seq<char> {
    match style {
        BorderStyle::Dashed => "[] 0 d\n"@,
        BorderStyle::Dotted => "[] 0 d\n0 J\n"@,
        _ => ""@,
    }
}

/// Reset the dash pattern (and line cap) back to solid/butt after a
/// dashed/dotted stroke so subsequent strokes are unaffected.
pub fn reset_dash_pattern(style: BorderStyle) -> (result: &'static str)
    ensures
        result@ == dash_reset_text(style),
{
    match style {
        BorderStyle::Dashed => "[] 0 d\n",
        BorderStyle::Dotted => "[] 0 d\n0 J\n",
        _ => "",
    }
}

/// The name of the `counter`-th border opacity graphics state.
pub open spec fn gstate_name(counter: nat) -> Seq<char> {
    "GSbd"@ + decimal(counter)
}

/// The operator that selects the opacity state of a translucent side.
pub open spec fn alpha_prefix(alpha: u8, counter: nat) -> Seq<char> {
    if alpha < 255 {
        "/"@ + gstate_name(counter) + " gs\n"@
    } else {
        Seq::empty()
    }
}

/// The operator that restores full opacity after a translucent side.
pub open spec fn alpha_suffix(applied: bool) -> Seq<char> {
    if applied {
        "/GSDefault gs\n"@
    } else {
        Seq::empty()
    }
}

/// A translucent side is bracketed: the reset after it is emitted exactly
/// when an opacity state was selected before it.
pub proof fn lemma_alpha_bracket_balanced(alpha: u8, counter: nat)
    ensures
        alpha_prefix(alpha, counter).len() > 0 <==> alpha_suffix(alpha < 255).len() > 0,
{
    reveal_strlit("/");
    reveal_strlit("/GSDefault gs\n");
}

/// The page's opacity states by name and alpha.
pub open spec fn gstates_view(states: Seq<(String, u8)>) -> Seq<(Seq<char>, u8)> {
    states.map_values(|state: (String, u8)| (state.0@, state.1))
}

/// Apply an opacity graphics state before painting a border side whose
/// colour is translucent: register `(name, alpha)` as a page resource and
/// select it. Returns whether one was applied, so the caller can reset it
/// with [`end_border_alpha`]. Opaque sides emit nothing.
pub fn begin_border_alpha(
    content: &mut String,
    page_ext_gstates: &mut Vec<(String, u8)>,
    counter: &mut usize,
    alpha: u8,
) -> (applied: bool)
    requires
        alpha < 255 ==> *old(counter) < usize::MAX,
    ensures
        applied == (alpha < 255),
        final(content)@ == old(content)@ + alpha_prefix(alpha, *old(counter) as nat),
        applied ==> *final(counter) == *old(counter) + 1 && gstates_view(final(page_ext_gstates)@)
            == gstates_view(old(page_ext_gstates)@).push(
            (gstate_name(*old(counter) as nat), alpha),
        ),
        !applied ==> *final(counter) == *old(counter) && final(page_ext_gstates)@ == old(
            page_ext_gstates,
        )@,
{
    if alpha < 255 {
        let mut name = String::new();
        push_text(&mut name, "GSbd");
        push_decimal(&mut name, *counter);
        *counter = *counter + 1;
        let ghost before = page_ext_gstates@;
        page_ext_gstates.push((name.clone(), alpha));
        push_text(content, "/");
        push_text(content, name.as_str());
        push_text(content, " gs\n");
        proof {
            assert(gstates_view(page_ext_gstates@) =~= gstates_view(before).push(
                (name@, alpha),
            ));
            assert(content@ =~= old(content)@ + alpha_prefix(alpha, *old(counter) as nat));
        }
        true
    } else {
        proof {
            assert(content@ =~= old(content)@ + alpha_prefix(alpha, *old(counter) as nat));
        }
        false
    }
}

/// Reset opacity to the default graphics state after a translucent border
/// side. No-op when `applied` is false.
pub fn end_border_alpha(content: &mut String, applied: bool)
    ensures
        final(content)@ == old(content)@ + alpha_suffix(applied),
{
    if applied {
        push_text(content, "/GSDefault gs\n");
    } else {
        assert(old(content)@ + alpha_suffix(applied) =~= old(content)@);
    }
}

/// The already serialized geometry and colours of one border ring: each
/// side's exclusive region as a closed path, each side's fill-colour
/// operator, and the curved clip of a rounded ring.
pub struct BorderRingPaths {
    pub side_paths: PhysicalEdges<String>,
    pub fill_operators: PhysicalEdges<String>,
    pub curved_clip: Option<String>,
}

/// The side at clockwise position `ordinal` (modulo 4).
pub open spec fn side_at(sides: PhysicalEdges<LayoutBorderSide>, ordinal: int) -> LayoutBorderSide {
    sides.at(PhysicalSide::from_ordinal(ordinal))
}

/// Every side shares one solid region with its counter-clockwise
/// neighbour: the four sides form one closed component.
pub open spec fn closed_component(sides: PhysicalEdges<LayoutBorderSide>) -> bool {
    forall|o: int|
        0 <= o < 4 ==> #[trigger] side_at(sides, o).spec_shares_solid_region_with(
            side_at(sides, o + 3),
        )
}

/// A fill operation starts at the side at position `o`: it paints solid,
/// and either it is the top of a closed component or its counter-clockwise
/// neighbour does not join it.
pub open spec fn starts_component(sides: PhysicalEdges<LayoutBorderSide>, o: int) -> bool {
    let side = side_at(sides, o);
    &&& side.spec_paints()
    &&& side.style == BorderStyle::Solid
    &&& if closed_component(sides) {
        o % 4 == 0
    } else {
        !side.spec_shares_solid_region_with(side_at(sides, o + 3))
    }
}

/// How many sides, clockwise from position `o`, the fill starting there
/// covers, having checked `j` of them: it runs until a side does not share
/// the start's region, or around the whole box.
pub open spec fn run_len_from(sides: PhysicalEdges<LayoutBorderSide>, o: int, j: int) -> int
    decreases 4 - j,
{
    if j >= 4 || !side_at(sides, o).spec_shares_solid_region_with(side_at(sides, o + j)) {
        j
    } else {
        run_len_from(sides, o, j + 1)
    }
}

/// The side paths of `count` sides clockwise from position `o`.
pub open spec fn run_paths(paths: PhysicalEdges<String>, o: int, count: nat) -> Seq<char>
    decreases count,
{
    if count == 0 {
        Seq::empty()
    } else {
        run_paths(paths, o, (count - 1) as nat) + paths.at(
            PhysicalSide::from_ordinal(o + count - 1),
        )@
    }
}

/// The operators that open the curved clip of a rounded ring.
pub open spec fn clip_open_text(ring: BorderRingPaths) -> Seq<char> {
    match ring.curved_clip {
        Some(clip) => "q\n"@ + clip@,
        None => Seq::empty(),
    }
}

/// The operator that closes the curved clip of a rounded ring.
pub open spec fn clip_close_text(ring: BorderRingPaths) -> Seq<char> {
    match ring.curved_clip {
        Some(_) => "Q\n"@,
        None => Seq::empty(),
    }
}

/// The content of the fill that starts at position `o`.
pub open spec fn component_text(
    ring: BorderRingPaths,
    sides: PhysicalEdges<LayoutBorderSide>,
    o: int,
    counter: nat,
) -> Seq<char> {
    let side = side_at(sides, o);
    alpha_prefix(side.color.alpha, counter) + ring.fill_operators.at(
        PhysicalSide::from_ordinal(o),
    )@ + clip_open_text(ring) + run_paths(ring.side_paths, o, run_len_from(sides, o, 1) as nat)
        + "f\n"@ + clip_close_text(ring) + alpha_suffix(side.color.alpha < 255)
}

/// Opacity states registered by the fills that start before position
/// `upto`.
pub open spec fn translucent_starts(sides: PhysicalEdges<LayoutBorderSide>, upto: int) -> nat
    decreases upto,
{
    if upto <= 0 {
        0
    } else {
        translucent_starts(sides, upto - 1) + if starts_component(sides, upto - 1) && side_at(
            sides,
            upto - 1,
        ).color.alpha < 255 {
            1nat
        } else {
            0nat
        }
    }
}

/// The content of all fills that start before position `upto`.
pub open spec fn components_text(
    ring: BorderRingPaths,
    sides: PhysicalEdges<LayoutBorderSide>,
    upto: int,
    counter: nat,
) -> Seq<char>
    decreases upto,
{
    if upto <= 0 {
        Seq::empty()
    } else {
        components_text(ring, sides, upto - 1, counter) + if starts_component(sides, upto - 1) {
            component_text(ring, sides, upto - 1, counter + translucent_starts(sides, upto - 1))
        } else {
            Seq::empty()
        }
    }
}

/// The opacity states registered by the fills that start before `upto`.
pub open spec fn components_gstates(
    sides: PhysicalEdges<LayoutBorderSide>,
    upto: int,
    counter: nat,
) -> Seq<(Seq<char>, u8)>
    decreases upto,
{
    if upto <= 0 {
        Seq::empty()
    } else {
        components_gstates(sides, upto - 1, counter) + if starts_component(sides, upto - 1)
            && side_at(sides, upto - 1).color.alpha < 255 {
            seq![
                (
                    gstate_name(counter + translucent_starts(sides, upto - 1)),
                    side_at(sides, upto - 1).color.alpha,
                ),
            ]
        } else {
            Seq::empty()
        }
    }
}

proof fn lemma_run_len_from(sides: PhysicalEdges<LayoutBorderSide>, o: int, j: int, count: int)
    requires
        1 <= j <= count <= 4,
        forall|k: int|
            j <= k < count ==> #[trigger] side_at(sides, o).spec_shares_solid_region_with(
                side_at(sides, o + k),
            ),
        count == 4 || !side_at(sides, o).spec_shares_solid_region_with(side_at(sides, o + count)),
    ensures
        run_len_from(sides, o, j) == count,
    decreases 4 - j,
{
    if j < count {
        lemma_run_len_from(sides, o, j + 1, count);
    }
}

/// The side at position `o` paints a solid region.
pub open spec fn solid_at(sides: PhysicalEdges<LayoutBorderSide>, o: int) -> bool {
    side_at(sides, o).spec_paints() && side_at(sides, o).style == BorderStyle::Solid
}

/// The fill that starts at position `o` paints the side at position `i`.
pub open spec fn fill_covers(sides: PhysicalEdges<LayoutBorderSide>, o: int, i: int) -> bool {
    starts_component(sides, o) && (i - o) % 4 < run_len_from(sides, o, 1)
}

/// How far the fill from `o` reaches, by which of the next sides share
/// its region.
proof fn lemma_run_len_cases(sides: PhysicalEdges<LayoutBorderSide>, o: int)
    ensures
        run_len_from(sides, o, 1) == if !side_at(sides, o).spec_shares_solid_region_with(
            side_at(sides, o + 1),
        ) {
            1int
        } else if !side_at(sides, o).spec_shares_solid_region_with(side_at(sides, o + 2)) {
            2int
        } else if !side_at(sides, o).spec_shares_solid_region_with(side_at(sides, o + 3)) {
            3int
        } else {
            4int
        },
{
    reveal_with_fuel(run_len_from, 5);
}

/// The four sides by position, with the positions past the last one
/// wrapping around.
proof fn lemma_side_positions(sides: PhysicalEdges<LayoutBorderSide>)
    ensures
        side_at(sides, 0) == sides.top && side_at(sides, 4) == sides.top,
        side_at(sides, 1) == sides.right && side_at(sides, 5) == sides.right,
        side_at(sides, 2) == sides.bottom && side_at(sides, 6) == sides.bottom,
        side_at(sides, 3) == sides.left && side_at(sides, 7) == sides.left,
        side_at(sides, -1) == sides.left,
{
}

/// Side ownership is exclusive: every side that paints a solid region is
/// painted by exactly one fill, and no fill paints any other side.
pub proof fn lemma_each_solid_side_is_filled_once(sides: PhysicalEdges<LayoutBorderSide>, i: int)
    requires
        0 <= i < 4,
    ensures
        solid_at(sides, i) ==> exists|o: int| 0 <= o < 4 && #[trigger] fill_covers(sides, o, i),
        forall|o1: int, o2: int|
            0 <= o1 < 4 && 0 <= o2 < 4 && #[trigger] fill_covers(sides, o1, i) && #[trigger] fill_covers(
                sides,
                o2,
                i,
            ) ==> o1 == o2,
        !solid_at(sides, i) ==> forall|o: int| 0 <= o < 4 ==> !#[trigger] fill_covers(sides, o, i),
{
    lemma_side_positions(sides);
    lemma_run_len_cases(sides, 0);
    lemma_run_len_cases(sides, 1);
    lemma_run_len_cases(sides, 2);
    lemma_run_len_cases(sides, 3);
    assert(closed_component(sides) <==> (side_at(sides, 0).spec_shares_solid_region_with(
        side_at(sides, 0int + 3),
    ) && side_at(sides, 1).spec_shares_solid_region_with(side_at(sides, 1int + 3))
        && side_at(sides, 2).spec_shares_solid_region_with(side_at(sides, 2int + 3)) && side_at(
        sides,
        3,
    ).spec_shares_solid_region_with(side_at(sides, 3int + 3))));
    assert((0 - 0) % 4 == 0 && (1 - 0) % 4 == 1 && (2 - 0) % 4 == 2 && (3 - 0) % 4 == 3);
    assert((0 - 1) % 4 == 3 && (1 - 1) % 4 == 0 && (2 - 1) % 4 == 1 && (3 - 1) % 4 == 2);
    assert((0 - 2) % 4 == 2 && (1 - 2) % 4 == 3 && (2 - 2) % 4 == 0 && (3 - 2) % 4 == 1);
    assert((0 - 3) % 4 == 1 && (1 - 3) % 4 == 2 && (2 - 3) % 4 == 3 && (3 - 3) % 4 == 0);
    assert(3int % 4 == 3 && 0int % 4 == 0);
    if solid_at(sides, i) {
        if fill_covers(sides, 0, i) {
        } else if fill_covers(sides, 1, i) {
        } else if fill_covers(sides, 2, i) {
        } else {
            assert(fill_covers(sides, 3, i));
        }
    }
}

/// Fills that start earlier are among the fills that start later.
proof fn lemma_translucent_starts_grow(sides: PhysicalEdges<LayoutBorderSide>, upto: int, later: int)
    requires
        0 <= upto <= later,
    ensures
        translucent_starts(sides, upto) <= translucent_starts(sides, later),
    decreases later - upto,
{
    if upto < later {
        lemma_translucent_starts_grow(sides, upto, later - 1);
    }
}

/// Whether the four sides form one closed component.
fn ring_is_closed(sides: &PhysicalEdges<LayoutBorderSide>) -> (closed: bool)
    ensures
        closed == closed_component(*sides),
{
    let top = sides.top.shares_solid_region_with(sides.left);
    let right = sides.right.shares_solid_region_with(sides.top);
    let bottom = sides.bottom.shares_solid_region_with(sides.right);
    let left = sides.left.shares_solid_region_with(sides.bottom);
    proof {
        assert(side_at(*sides, 0) == sides.top && side_at(*sides, 3) == sides.left);
        assert(side_at(*sides, 1) == sides.right && side_at(*sides, 4) == sides.top);
        assert(side_at(*sides, 2) == sides.bottom && side_at(*sides, 5) == sides.right);
        assert(side_at(*sides, 6) == sides.bottom);
        if closed_component(*sides) {
            assert(side_at(*sides, 0).spec_shares_solid_region_with(side_at(*sides, 0int + 3)));
            assert(side_at(*sides, 1).spec_shares_solid_region_with(side_at(*sides, 1int + 3)));
            assert(side_at(*sides, 2).spec_shares_solid_region_with(side_at(*sides, 2int + 3)));
            assert(side_at(*sides, 3).spec_shares_solid_region_with(side_at(*sides, 3int + 3)));
        }
        if top && right && bottom && left {
            assert forall|o: int| 0 <= o < 4 implies #[trigger] side_at(
                *sides,
                o,
            ).spec_shares_solid_region_with(side_at(*sides, o + 3)) by {
                if o == 0 {
                } else if o == 1 {
                } else if o == 2 {
                } else {
                }
            }
        }
    }
    top && right && bottom && left
}

/// Append the side paths of the fill that starts at `start`: the start and
/// the following sides clockwise that share its solid region.
fn push_run_paths(
    content: &mut String,
    ring: &BorderRingPaths,
    sides: &PhysicalEdges<LayoutBorderSide>,
    start: PhysicalSide,
)
    ensures
        final(content)@ == old(content)@ + run_paths(
            ring.side_paths,
            start.ordinal(),
            run_len_from(*sides, start.ordinal(), 1) as nat,
        ),
{
    let ghost o = start.ordinal();
    let ghost content_run = content@;
    let side = sides.get(start);
    proof {
        crate::border::lemma_side_ordinal_injective(start, start);
    }
    let mut edge = start;
    let mut count: usize = 0;
    let mut more = true;
    while more
        invariant
            count <= 4,
            more ==> count < 4,
            !more ==> 1 <= count,
            PhysicalSide::from_ordinal(o + count) == edge,
            0 <= o < 4,
            o == start.ordinal(),
            PhysicalSide::from_ordinal(o) == start,
            forall|k: int|
                1 <= k < count ==> #[trigger] side.spec_shares_solid_region_with(
                    side_at(*sides, o + k),
                ),
            more && count >= 1 ==> side.spec_shares_solid_region_with(side_at(*sides, o + count)),
            !more ==> count == 4 || !side.spec_shares_solid_region_with(side_at(*sides, o + count)),
            side == side_at(*sides, o),
            content@ == content_run + run_paths(ring.side_paths, o, count as nat),
        decreases 4 - count,
    {
        push_text(content, ring.side_paths.get_ref(edge).as_str());
        let next = edge.clockwise();
        proof {
            assert(content@ =~= content_run + run_paths(ring.side_paths, o, (count + 1) as nat));
            crate::border::lemma_side_ordinal_injective(edge, edge);
            assert(PhysicalSide::from_ordinal(o + count + 1) == next);
        }
        edge = next;
        count += 1;
        proof {
            crate::border::lemma_side_ordinal_injective(edge, start);
            assert(edge == start <==> count == 4);
        }
        if edge == start || !side.shares_solid_region_with(sides.get(edge)) {
            more = false;
        }
    }
    proof {
        lemma_run_len_from(*sides, o, 1, count as int);
    }
}

/// Paint the fill that starts at `start`, within its opacity state.
fn paint_component(
    content: &mut String,
    ring: &BorderRingPaths,
    sides: &PhysicalEdges<LayoutBorderSide>,
    page_ext_gstates: &mut Vec<(String, u8)>,
    alpha_counter: &mut usize,
    start: PhysicalSide,
)
    requires
        side_at(*sides, start.ordinal()).color.alpha < 255 ==> *old(alpha_counter) < usize::MAX,
    ensures
        final(content)@ == old(content)@ + component_text(
            *ring,
            *sides,
            start.ordinal(),
            *old(alpha_counter) as nat,
        ),
        side_at(*sides, start.ordinal()).color.alpha < 255 ==> *final(alpha_counter) == *old(
            alpha_counter,
        ) + 1 && gstates_view(final(page_ext_gstates)@) == gstates_view(
            old(page_ext_gstates)@,
        ).push(
            (
                gstate_name(*old(alpha_counter) as nat),
                side_at(*sides, start.ordinal()).color.alpha,
            ),
        ),
        side_at(*sides, start.ordinal()).color.alpha == 255 ==> *final(alpha_counter) == *old(
            alpha_counter,
        ) && final(page_ext_gstates)@ == old(page_ext_gstates)@,
{
    proof {
        crate::border::lemma_side_ordinal_injective(start, start);
    }
    let side = sides.get(start);
    let ghost o = start.ordinal();
    let mut piece = String::new();
    let alpha = begin_border_alpha(&mut piece, page_ext_gstates, alpha_counter, side.color.alpha);
    proof {
        assert(piece@ =~= alpha_prefix(side.color.alpha, *old(alpha_counter) as nat));
    }
    push_text(&mut piece, ring.fill_operators.get_ref(start).as_str());
    let ghost c2 = piece@;
    match &ring.curved_clip {
        Some(clip) => {
            push_text(&mut piece, "q\n");
            push_text(&mut piece, clip.as_str());
        },
        None => {},
    }
    proof {
        assert(piece@ =~= c2 + clip_open_text(*ring));
    }
    push_run_paths(&mut piece, ring, sides, start);
    push_text(&mut piece, "f\n");
    let ghost c5 = piece@;
    match &ring.curved_clip {
        Some(_) => push_text(&mut piece, "Q\n"),
        None => {},
    }
    proof {
        assert(piece@ =~= c5 + clip_close_text(*ring));
    }
    end_border_alpha(&mut piece, alpha);
    proof {
        assert(PhysicalSide::from_ordinal(o) == start);
        assert(piece@ == component_text(*ring, *sides, o, *old(alpha_counter) as nat));
    }
    push_text(content, piece.as_str());
}

/// Paint connected equal-colour solid sides as compound border-ring regions.
///
/// Side ownership stays exclusive—the regions only share their
/// frontier—but one fill operation prevents a PDF rasterizer from
/// antialiasing that shared frontier twice and exposing a hairline between
/// visually continuous sides. Disconnected sides remain separate paint
/// operations, matching their independent CSS regions.
pub fn paint_solid_side_components(
    content: &mut String,
    ring: &BorderRingPaths,
    sides: PhysicalEdges<LayoutBorderSide>,
    page_ext_gstates: &mut Vec<(String, u8)>,
    alpha_counter: &mut usize,
)
    requires
        *old(alpha_counter) + translucent_starts(sides, 4) <= usize::MAX,
    ensures
        final(content)@ == old(content)@ + components_text(
            *ring,
            sides,
            4,
            *old(alpha_counter) as nat,
        ),
        gstates_view(final(page_ext_gstates)@) == gstates_view(old(page_ext_gstates)@)
            + components_gstates(sides, 4, *old(alpha_counter) as nat),
        *final(alpha_counter) == *old(alpha_counter) + translucent_starts(sides, 4),
{
    let all = PhysicalSide::all();
    let closed = ring_is_closed(&sides);
    let ghost base_content = content@;
    let ghost base_states = gstates_view(page_ext_gstates@);
    let ghost base_counter = *alpha_counter as nat;
    let mut position: usize = 0;
    while position < 4
        invariant
            position <= 4,
            forall|i: int| 0 <= i < 4 ==> (#[trigger] all[i]).ordinal() == i,
            closed == closed_component(sides),
            content@ == base_content + components_text(*ring, sides, position as int, base_counter),
            gstates_view(page_ext_gstates@) == base_states + components_gstates(
                sides,
                position as int,
                base_counter,
            ),
            *alpha_counter == base_counter + translucent_starts(sides, position as int),
            translucent_starts(sides, position as int) <= position,
            base_counter + translucent_starts(sides, 4) <= usize::MAX,
        decreases 4 - position,
    {
        let start = all[position];
        let ghost o = position as int;
        let previous = start.counter_clockwise();
        proof {
            crate::border::lemma_side_ordinal_injective(start, start);
            assert(PhysicalSide::from_ordinal(o) == start);
            assert(PhysicalSide::from_ordinal(o + 3) == previous);
            assert(o % 4 == 0 <==> start == PhysicalSide::Top);
        }
        let side = sides.get(start);
        let joins_previous_component = side.shares_solid_region_with(sides.get(previous));
        let starts = side.paints() && side.style == BorderStyle::Solid && (if closed {
            start == PhysicalSide::Top
        } else {
            !joins_previous_component
        });
        proof {
            assert(starts == starts_component(sides, o));
        }
        if starts {
            proof {
                lemma_translucent_starts_grow(sides, o + 1, 4);
            }
            let ghost states_before = page_ext_gstates@;
            paint_component(content, ring, &sides, page_ext_gstates, alpha_counter, start);
            proof {
                assert(content@ =~= base_content + components_text(
                    *ring,
                    sides,
                    o + 1,
                    base_counter,
                ));
                assert(gstates_view(page_ext_gstates@) =~= base_states + components_gstates(
                    sides,
                    o + 1,
                    base_counter,
                ));
            }
        } else {
            proof {
                assert(content@ =~= base_content + components_text(
                    *ring,
                    sides,
                    o + 1,
                    base_counter,
                ));
                assert(components_gstates(sides, o + 1, base_counter) =~= components_gstates(
                    sides,
                    o,
                    base_counter,
                ) + Seq::empty());
            }
        }
        position += 1;
    }
}

} // verus!
