//! The cascade: from the rules that match an element to the values of its properties.

use vstd::prelude::*;
use crate::dom::document::{attr_of, Document, ElementRef};
use crate::dom::html::is_element;
use crate::dom::selector::selector_matches;
use crate::engine::styles::declaration_block::{
    block_declarations, Declaration, DeclarationBlock, Property, Specified,
};
use crate::engine::styles::style_set::{EntryModel, StyleSet};
use crate::engine::styles::values::{
    Color, Dimension, Display, Float, Keyword, LengthOrPercentageOrAuto, Position, Rgba,
};

verus! {

/// The values of the properties of an element. Lengths are in thousandths of a pixel.
#[derive(Debug, Clone, Copy, PartialEq, Eq, Structural)]
pub struct ComputedValues {
    /// The size of the font. Inherited.
    pub font_size: i64,
    /// The colour of the text. Inherited.
    pub color: Rgba,
    /// The colour of the background.
    pub background_color: Color,
    pub display: Display,
    pub position: Position,
    pub float: Float,
    pub top: LengthOrPercentageOrAuto,
    pub right: LengthOrPercentageOrAuto,
    pub bottom: LengthOrPercentageOrAuto,
    pub left: LengthOrPercentageOrAuto,
    pub width: LengthOrPercentageOrAuto,
    pub height: LengthOrPercentageOrAuto,
    pub margin_top: LengthOrPercentageOrAuto,
    pub margin_right: LengthOrPercentageOrAuto,
    pub margin_bottom: LengthOrPercentageOrAuto,
    pub margin_left: LengthOrPercentageOrAuto,
    pub padding_top: LengthOrPercentageOrAuto,
    pub padding_right: LengthOrPercentageOrAuto,
    pub padding_bottom: LengthOrPercentageOrAuto,
    pub padding_left: LengthOrPercentageOrAuto,
    pub border_top_width: LengthOrPercentageOrAuto,
    pub border_right_width: LengthOrPercentageOrAuto,
    pub border_bottom_width: LengthOrPercentageOrAuto,
    pub border_left_width: LengthOrPercentageOrAuto,
}

/// The longest length that the cascade works with, in thousandths of a pixel.
pub const MAX_LENGTH: i64 = 1_000_000_000_000;

/// `x`, or the nearest length that the cascade works with.
pub open spec fn limited(x: int) -> i64 {
    if x > MAX_LENGTH {
        MAX_LENGTH
    } else if x < -MAX_LENGTH {
        (-MAX_LENGTH) as i64
    } else {
        x as i64
    }
}

/// The product of `v` and `base`, both in thousandths, in thousandths; what is left of a
/// thousandth is dropped.
pub open spec fn scaled(v: int, base: int) -> i64 {
    let product = v * base;
    if product >= 0 {
        limited(product / 1000)
    } else {
        limited(-((-product) / 1000))
    }
}

/// The values that every property starts with.
pub open spec fn initial_values() -> ComputedValues {
    ComputedValues {
        font_size: 16_000,
        color: Rgba { red: 0, green: 0, blue: 0, alpha: 255 },
        background_color: Color::Rgba(Rgba { red: 0, green: 0, blue: 0, alpha: 0 }),
        display: Display::Inline,
        position: Position::Static,
        float: Float::Neither,
        top: LengthOrPercentageOrAuto::Auto,
        right: LengthOrPercentageOrAuto::Auto,
        bottom: LengthOrPercentageOrAuto::Auto,
        left: LengthOrPercentageOrAuto::Auto,
        width: LengthOrPercentageOrAuto::Auto,
        height: LengthOrPercentageOrAuto::Auto,
        margin_top: LengthOrPercentageOrAuto::Length(0),
        margin_right: LengthOrPercentageOrAuto::Length(0),
        margin_bottom: LengthOrPercentageOrAuto::Length(0),
        margin_left: LengthOrPercentageOrAuto::Length(0),
        padding_top: LengthOrPercentageOrAuto::Length(0),
        padding_right: LengthOrPercentageOrAuto::Length(0),
        padding_bottom: LengthOrPercentageOrAuto::Length(0),
        padding_left: LengthOrPercentageOrAuto::Length(0),
        border_top_width: LengthOrPercentageOrAuto::Length(3_000),
        border_right_width: LengthOrPercentageOrAuto::Length(3_000),
        border_bottom_width: LengthOrPercentageOrAuto::Length(3_000),
        border_left_width: LengthOrPercentageOrAuto::Length(3_000),
    }
}

/// The values of an element before any declaration applies: the inherited properties have
/// the values of the parent, all others the values that they start with. An element
/// without a parent starts with the initial values throughout.
pub open spec fn start_values(parent: Option<ComputedValues>) -> ComputedValues {
    match parent {
        Some(p) => ComputedValues { font_size: p.font_size, color: p.color, ..initial_values() },
        None => initial_values(),
    }
}

/// The values that `inherit` stands for: those of the parent, and the initial values where
/// there is no parent.
pub open spec fn inherited_values(parent: Option<ComputedValues>) -> ComputedValues {
    match parent {
        Some(p) => p,
        None => initial_values(),
    }
}

/// The size that a declared value stands for. A length in `em` is a multiple of
/// `font_size`; a value that is no size leaves `current`.
pub open spec fn size_of(
    value: Specified,
    font_size: i64,
    current: LengthOrPercentageOrAuto,
    inherited: LengthOrPercentageOrAuto,
    initial: LengthOrPercentageOrAuto,
) -> LengthOrPercentageOrAuto {
    match value {
        Specified::Dimension(Dimension::Px(v)) => LengthOrPercentageOrAuto::Length(
            limited(v as int),
        ),
        Specified::Dimension(Dimension::Em(v)) => LengthOrPercentageOrAuto::Length(
            scaled(v as int, font_size as int),
        ),
        Specified::Dimension(Dimension::Percent(v)) => LengthOrPercentageOrAuto::Percentage(
            limited(v as int),
        ),
        Specified::Auto => LengthOrPercentageOrAuto::Auto,
        Specified::Inherit => inherited,
        Specified::Initial => initial,
        Specified::Color(_) => current,
        Specified::Keyword(_) => current,
    }
}

/// The font size that a declared value stands for. Lengths in `em` and percentages are
/// taken of the font size of the parent; a size below zero and a value that is no size
/// leave `current`.
pub open spec fn font_size_of(value: Specified, current: i64, inherited: i64) -> i64 {
    match value {
        Specified::Dimension(Dimension::Px(v)) => if v >= 0 {
            limited(v as int)
        } else {
            current
        },
        Specified::Dimension(Dimension::Em(v)) => if v >= 0 && inherited >= 0 {
            scaled(v as int, inherited as int)
        } else {
            current
        },
        Specified::Dimension(Dimension::Percent(v)) => if v >= 0 && inherited >= 0 {
            limited(scaled(v as int, inherited as int) / 100)
        } else {
            current
        },
        Specified::Inherit => inherited,
        Specified::Initial => 16_000,
        _ => current,
    }
}

/// The values that `values` turn into when one declaration applies.
pub open spec fn applied_one(
    values: ComputedValues,
    d: Declaration,
    parent: Option<ComputedValues>,
) -> ComputedValues {
    let up = inherited_values(parent);
    let first = initial_values();
    match d.property {
        Property::FontSize => ComputedValues {
            font_size: font_size_of(d.value, values.font_size, up.font_size),
            ..values
        },
        Property::Color => ComputedValues {
            color: match d.value {
                Specified::Color(Color::Rgba(c)) => c,
                Specified::Color(Color::CurrentColor) => up.color,
                Specified::Inherit => up.color,
                Specified::Initial => first.color,
                _ => values.color,
            },
            ..values
        },
        Property::BackgroundColor => ComputedValues {
            background_color: match d.value {
                Specified::Color(c) => c,
                Specified::Inherit => up.background_color,
                Specified::Initial => first.background_color,
                _ => values.background_color,
            },
            ..values
        },
        Property::Display => ComputedValues {
            display: match d.value {
                Specified::Keyword(Keyword::Display(k)) => k,
                Specified::Inherit => up.display,
                Specified::Initial => first.display,
                _ => values.display,
            },
            ..values
        },
        Property::Position => ComputedValues {
            position: match d.value {
                Specified::Keyword(Keyword::Position(k)) => k,
                Specified::Inherit => up.position,
                Specified::Initial => first.position,
                _ => values.position,
            },
            ..values
        },
        Property::Float => ComputedValues {
            float: match d.value {
                Specified::Keyword(Keyword::Float(k)) => k,
                Specified::Inherit => up.float,
                Specified::Initial => first.float,
                _ => values.float,
            },
            ..values
        },
        Property::Top => ComputedValues {
            top: size_of(d.value, values.font_size, values.top, up.top, first.top),
            ..values
        },
        Property::Right => ComputedValues {
            right: size_of(d.value, values.font_size, values.right, up.right, first.right),
            ..values
        },
        Property::Bottom => ComputedValues {
            bottom: size_of(d.value, values.font_size, values.bottom, up.bottom, first.bottom),
            ..values
        },
        Property::Left => ComputedValues {
            left: size_of(d.value, values.font_size, values.left, up.left, first.left),
            ..values
        },
        Property::Width => ComputedValues {
            width: size_of(d.value, values.font_size, values.width, up.width, first.width),
            ..values
        },
        Property::Height => ComputedValues {
            height: size_of(d.value, values.font_size, values.height, up.height, first.height),
            ..values
        },
        Property::MarginTop => ComputedValues {
            margin_top: size_of(
                d.value,
                values.font_size,
                values.margin_top,
                up.margin_top,
                first.margin_top,
            ),
            ..values
        },
        Property::MarginRight => ComputedValues {
            margin_right: size_of(
                d.value,
                values.font_size,
                values.margin_right,
                up.margin_right,
                first.margin_right,
            ),
            ..values
        },
        Property::MarginBottom => ComputedValues {
            margin_bottom: size_of(
                d.value,
                values.font_size,
                values.margin_bottom,
                up.margin_bottom,
                first.margin_bottom,
            ),
            ..values
        },
        Property::MarginLeft => ComputedValues {
            margin_left: size_of(
                d.value,
                values.font_size,
                values.margin_left,
                up.margin_left,
                first.margin_left,
            ),
            ..values
        },
        Property::PaddingTop => ComputedValues {
            padding_top: size_of(
                d.value,
                values.font_size,
                values.padding_top,
                up.padding_top,
                first.padding_top,
            ),
            ..values
        },
        Property::PaddingRight => ComputedValues {
            padding_right: size_of(
                d.value,
                values.font_size,
                values.padding_right,
                up.padding_right,
                first.padding_right,
            ),
            ..values
        },
        Property::PaddingBottom => ComputedValues {
            padding_bottom: size_of(
                d.value,
                values.font_size,
                values.padding_bottom,
                up.padding_bottom,
                first.padding_bottom,
            ),
            ..values
        },
        Property::PaddingLeft => ComputedValues {
            padding_left: size_of(
                d.value,
                values.font_size,
                values.padding_left,
                up.padding_left,
                first.padding_left,
            ),
            ..values
        },
        Property::BorderTopWidth => ComputedValues {
            border_top_width: size_of(
                d.value,
                values.font_size,
                values.border_top_width,
                up.border_top_width,
                first.border_top_width,
            ),
            ..values
        },
        Property::BorderRightWidth => ComputedValues {
            border_right_width: size_of(
                d.value,
                values.font_size,
                values.border_right_width,
                up.border_right_width,
                first.border_right_width,
            ),
            ..values
        },
        Property::BorderBottomWidth => ComputedValues {
            border_bottom_width: size_of(
                d.value,
                values.font_size,
                values.border_bottom_width,
                up.border_bottom_width,
                first.border_bottom_width,
            ),
            ..values
        },
        Property::BorderLeftWidth => ComputedValues {
            border_left_width: size_of(
                d.value,
                values.font_size,
                values.border_left_width,
                up.border_left_width,
                first.border_left_width,
            ),
            ..values
        },
    }
}

/// The values that `values` turn into when, of `decls` in order, those apply that are
/// marked important or not as `important` says and that are early or late as `early` says.
pub open spec fn applied(
    values: ComputedValues,
    decls: Seq<Declaration>,
    important: bool,
    early: bool,
    parent: Option<ComputedValues>,
) -> ComputedValues
    decreases decls.len(),
{
    if decls.len() == 0 {
        values
    } else {
        let before = applied(values, decls.drop_last(), important, early, parent);
        let d = decls.last();
        if d.important == important && d.property.early() == early {
            applied_one(before, d, parent)
        } else {
            before
        }
    }
}

/// The values that `values` turn into when the declarations of `blocks` apply, block after
/// block.
pub open spec fn applied_blocks(
    values: ComputedValues,
    blocks: Seq<Seq<Declaration>>,
    important: bool,
    early: bool,
    parent: Option<ComputedValues>,
) -> ComputedValues
    decreases blocks.len(),
{
    if blocks.len() == 0 {
        values
    } else {
        applied(
            applied_blocks(values, blocks.drop_last(), important, early, parent),
            blocks.last(),
            important,
            early,
            parent,
        )
    }
}

/// The values of an element with the parent values `parent`, the matching blocks `blocks`
/// in the order of the style set, and the declarations `inline` of its `style` attribute.
///
/// The early properties are settled first, then the others. Each time the declarations
/// that are not important apply first, those of the style sheets before those of the
/// attribute; then the important ones in the same order. So an important declaration wins
/// over any that is not, whatever the selectors.
pub open spec fn cascaded(
    parent: Option<ComputedValues>,
    blocks: Seq<Seq<Declaration>>,
    inline: Seq<Declaration>,
) -> ComputedValues {
    let v0 = start_values(parent);
    let v1 = applied_blocks(v0, blocks, false, true, parent);
    let v2 = applied(v1, inline, false, true, parent);
    let v3 = applied_blocks(v2, blocks, true, true, parent);
    let v4 = applied(v3, inline, true, true, parent);
    let v5 = applied_blocks(v4, blocks, false, false, parent);
    let v6 = applied(v5, inline, false, false, parent);
    let v7 = applied_blocks(v6, blocks, true, false, parent);
    applied(v7, inline, true, false, parent)
}

/// Where nothing is declared for an element, its inherited properties have the values of
/// its parent and all others the values that they start with.
pub proof fn nothing_declared(parent: Option<ComputedValues>)
    ensures
        cascaded(parent, Seq::empty(), Seq::empty()) == start_values(parent),
        parent matches Some(p) ==> start_values(parent) == (ComputedValues {
            font_size: p.font_size,
            color: p.color,
            ..initial_values()
        }),
        parent is None ==> start_values(parent) == initial_values(),
{
}

/// A declaration that is marked important and applies last among the important ones
/// decides over its property, whatever the declarations that are not important say.
pub proof fn important_wins(
    parent: Option<ComputedValues>,
    blocks: Seq<Seq<Declaration>>,
    inline: Seq<Declaration>,
    d: Declaration,
)
    requires
        d.important,
        !d.property.early(),
    ensures
        cascaded(parent, blocks, inline.push(d)) == applied_one(
            cascaded(parent, blocks, inline),
            d,
            parent,
        ),
{
    let longer = inline.push(d);
    assert(longer.drop_last() =~= inline);
    assert(longer.last() == d);
}

/// The blocks of the first `upto` entries whose selector matches element `node`, in order.
pub open spec fn matching(author: Seq<EntryModel>, tree: scraper::Html, node: int, upto: int) -> Seq<
    Seq<Declaration>,
>
    decreases upto,
{
    if upto <= 0 {
        Seq::empty()
    } else {
        let before = matching(author, tree, node, upto - 1);
        if selector_matches(tree, node, author[upto - 1].group) {
            before.push(author[upto - 1].declarations)
        } else {
            before
        }
    }
}

/// The declarations of the `style` attribute of a node.
pub open spec fn inline_declarations(doc: &Document, node: int) -> Seq<Declaration> {
    match attr_of(doc.nodes()[node], "style"@) {
        Some(s) => block_declarations(s, 0),
        None => Seq::empty(),
    }
}

/// The values of element `node`, looking at most `fuel` parents up for what it inherits.
pub open spec fn style_within(author: Seq<EntryModel>, doc: &Document, node: int, fuel: nat) -> ComputedValues
    decreases fuel,
{
    let n = doc.nodes()[node];
    let parent = if fuel > 0 && n.parent is Some && is_element(doc.tree, n.parent->0) {
        Some(style_within(author, doc, n.parent->0, (fuel - 1) as nat))
    } else {
        None
    };
    cascaded(
        parent,
        matching(author, doc.tree, node, author.len() as int),
        inline_declarations(doc, node),
    )
}

/// The values of element `node` of `doc` under the style sheets `author`.
pub open spec fn style_of(author: Seq<EntryModel>, doc: &Document, node: int) -> ComputedValues {
    style_within(author, doc, node, doc.nodes().len())
}

} // verus!

verus! {

/// `x`, or the nearest length that the cascade works with.
fn limit(x: i128) -> (r: i64)
    ensures
        r == limited(x as int),
{
    if x > MAX_LENGTH as i128 {
        MAX_LENGTH
    } else if x < -(MAX_LENGTH as i128) {
        -MAX_LENGTH
    } else {
        x as i64
    }
}

/// The product of `v` and `base`, both in thousandths, in thousandths.
fn scale(v: i64, base: i64) -> (r: i64)
    ensures
        r == scaled(v as int, base as int),
{
    let a: i128 = v as i128;
    let b: i128 = base as i128;
    assert(-0x4000_0000_0000_0000_0000_0000_0000_0000 <= a * b
        <= 0x4000_0000_0000_0000_0000_0000_0000_0000) by (nonlinear_arith)
        requires
            -0x8000_0000_0000_0000 <= a <= 0x8000_0000_0000_0000,
            -0x8000_0000_0000_0000 <= b <= 0x8000_0000_0000_0000,
    ;
    let product: i128 = a * b;
    if product >= 0 {
        limit(product / 1000)
    } else {
        let positive: i128 = -product;
        limit(-(positive / 1000))
    }
}

impl ComputedValues {
    /// The values that every property starts with.
    pub fn initial() -> (values: ComputedValues)
        ensures
            values == initial_values(),
    {
        ComputedValues {
            font_size: 16_000,
            color: Rgba { red: 0, green: 0, blue: 0, alpha: 255 },
            background_color: Color::Rgba(Rgba { red: 0, green: 0, blue: 0, alpha: 0 }),
            display: Display::Inline,
            position: Position::Static,
            float: Float::Neither,
            top: LengthOrPercentageOrAuto::Auto,
            right: LengthOrPercentageOrAuto::Auto,
            bottom: LengthOrPercentageOrAuto::Auto,
            left: LengthOrPercentageOrAuto::Auto,
            width: LengthOrPercentageOrAuto::Auto,
            height: LengthOrPercentageOrAuto::Auto,
            margin_top: LengthOrPercentageOrAuto::Length(0),
            margin_right: LengthOrPercentageOrAuto::Length(0),
            margin_bottom: LengthOrPercentageOrAuto::Length(0),
            margin_left: LengthOrPercentageOrAuto::Length(0),
            padding_top: LengthOrPercentageOrAuto::Length(0),
            padding_right: LengthOrPercentageOrAuto::Length(0),
            padding_bottom: LengthOrPercentageOrAuto::Length(0),
            padding_left: LengthOrPercentageOrAuto::Length(0),
            border_top_width: LengthOrPercentageOrAuto::Length(3_000),
            border_right_width: LengthOrPercentageOrAuto::Length(3_000),
            border_bottom_width: LengthOrPercentageOrAuto::Length(3_000),
            border_left_width: LengthOrPercentageOrAuto::Length(3_000),
        }
    }

    /// The values of an element before any declaration applies.
    pub fn new(parent: Option<ComputedValues>) -> (values: ComputedValues)
        ensures
            values == start_values(parent),
    {
        let first = ComputedValues::initial();
        match parent {
            Some(p) => ComputedValues { font_size: p.font_size, color: p.color, ..first },
            None => first,
        }
    }
}

/// The size that a declared value stands for.
fn resolve_size(
    value: Specified,
    font_size: i64,
    current: LengthOrPercentageOrAuto,
    inherited: LengthOrPercentageOrAuto,
    initial: LengthOrPercentageOrAuto,
) -> (size: LengthOrPercentageOrAuto)
    ensures
        size == size_of(value, font_size, current, inherited, initial),
{
    match value {
        Specified::Dimension(Dimension::Px(v)) => LengthOrPercentageOrAuto::Length(
            limit(v as i128),
        ),
        Specified::Dimension(Dimension::Em(v)) => LengthOrPercentageOrAuto::Length(
            scale(v, font_size),
        ),
        Specified::Dimension(Dimension::Percent(v)) => LengthOrPercentageOrAuto::Percentage(
            limit(v as i128),
        ),
        Specified::Auto => LengthOrPercentageOrAuto::Auto,
        Specified::Inherit => inherited,
        Specified::Initial => initial,
        Specified::Color(_) => current,
        Specified::Keyword(_) => current,
    }
}

/// The font size that a declared value stands for.
fn resolve_font_size(value: Specified, current: i64, inherited: i64) -> (size: i64)
    ensures
        size == font_size_of(value, current, inherited),
{
    match value {
        Specified::Dimension(Dimension::Px(v)) => if v >= 0 {
            limit(v as i128)
        } else {
            current
        },
        Specified::Dimension(Dimension::Em(v)) => if v >= 0 && inherited >= 0 {
            scale(v, inherited)
        } else {
            current
        },
        Specified::Dimension(Dimension::Percent(v)) => if v >= 0 && inherited >= 0 {
            let whole = scale(v, inherited);
            assert(whole >= 0) by {
                assert(v * inherited >= 0) by (nonlinear_arith)
                    requires
                        v >= 0,
                        inherited >= 0,
                ;
            }
            limit((whole / 100) as i128)
        } else {
            current
        },
        Specified::Inherit => inherited,
        Specified::Initial => 16_000,
        _ => current,
    }
}

/// The values that `values` turn into when one declaration applies.
pub fn apply_one(values: ComputedValues, d: Declaration, parent: Option<ComputedValues>) -> (r:
    ComputedValues)
    ensures
        r == applied_one(values, d, parent),
{
    let first = ComputedValues::initial();
    let up = match parent {
        Some(p) => p,
        None => first,
    };
    let f = values.font_size;
    match d.property {
        Property::FontSize => ComputedValues {
            font_size: resolve_font_size(d.value, values.font_size, up.font_size),
            ..values
        },
        Property::Color => ComputedValues {
            color: match d.value {
                Specified::Color(Color::Rgba(c)) => c,
                Specified::Color(Color::CurrentColor) => up.color,
                Specified::Inherit => up.color,
                Specified::Initial => first.color,
                _ => values.color,
            },
            ..values
        },
        Property::BackgroundColor => ComputedValues {
            background_color: match d.value {
                Specified::Color(c) => c,
                Specified::Inherit => up.background_color,
                Specified::Initial => first.background_color,
                _ => values.background_color,
            },
            ..values
        },
        Property::Display => ComputedValues {
            display: match d.value {
                Specified::Keyword(Keyword::Display(k)) => k,
                Specified::Inherit => up.display,
                Specified::Initial => first.display,
                _ => values.display,
            },
            ..values
        },
        Property::Position => ComputedValues {
            position: match d.value {
                Specified::Keyword(Keyword::Position(k)) => k,
                Specified::Inherit => up.position,
                Specified::Initial => first.position,
                _ => values.position,
            },
            ..values
        },
        Property::Float => ComputedValues {
            float: match d.value {
                Specified::Keyword(Keyword::Float(k)) => k,
                Specified::Inherit => up.float,
                Specified::Initial => first.float,
                _ => values.float,
            },
            ..values
        },
        Property::Top => ComputedValues {
            top: resolve_size(d.value, f, values.top, up.top, first.top),
            ..values
        },
        Property::Right => ComputedValues {
            right: resolve_size(d.value, f, values.right, up.right, first.right),
            ..values
        },
        Property::Bottom => ComputedValues {
            bottom: resolve_size(d.value, f, values.bottom, up.bottom, first.bottom),
            ..values
        },
        Property::Left => ComputedValues {
            left: resolve_size(d.value, f, values.left, up.left, first.left),
            ..values
        },
        Property::Width => ComputedValues {
            width: resolve_size(d.value, f, values.width, up.width, first.width),
            ..values
        },
        Property::Height => ComputedValues {
            height: resolve_size(d.value, f, values.height, up.height, first.height),
            ..values
        },
        Property::MarginTop => ComputedValues {
            margin_top: resolve_size(
                d.value,
                f,
                values.margin_top,
                up.margin_top,
                first.margin_top,
            ),
            ..values
        },
        Property::MarginRight => ComputedValues {
            margin_right: resolve_size(
                d.value,
                f,
                values.margin_right,
                up.margin_right,
                first.margin_right,
            ),
            ..values
        },
        Property::MarginBottom => ComputedValues {
            margin_bottom: resolve_size(
                d.value,
                f,
                values.margin_bottom,
                up.margin_bottom,
                first.margin_bottom,
            ),
            ..values
        },
        Property::MarginLeft => ComputedValues {
            margin_left: resolve_size(
                d.value,
                f,
                values.margin_left,
                up.margin_left,
                first.margin_left,
            ),
            ..values
        },
        Property::PaddingTop => ComputedValues {
            padding_top: resolve_size(
                d.value,
                f,
                values.padding_top,
                up.padding_top,
                first.padding_top,
            ),
            ..values
        },
        Property::PaddingRight => ComputedValues {
            padding_right: resolve_size(
                d.value,
                f,
                values.padding_right,
                up.padding_right,
                first.padding_right,
            ),
            ..values
        },
        Property::PaddingBottom => ComputedValues {
            padding_bottom: resolve_size(
                d.value,
                f,
                values.padding_bottom,
                up.padding_bottom,
                first.padding_bottom,
            ),
            ..values
        },
        Property::PaddingLeft => ComputedValues {
            padding_left: resolve_size(
                d.value,
                f,
                values.padding_left,
                up.padding_left,
                first.padding_left,
            ),
            ..values
        },
        Property::BorderTopWidth => ComputedValues {
            border_top_width: resolve_size(
                d.value,
                f,
                values.border_top_width,
                up.border_top_width,
                first.border_top_width,
            ),
            ..values
        },
        Property::BorderRightWidth => ComputedValues {
            border_right_width: resolve_size(
                d.value,
                f,
                values.border_right_width,
                up.border_right_width,
                first.border_right_width,
            ),
            ..values
        },
        Property::BorderBottomWidth => ComputedValues {
            border_bottom_width: resolve_size(
                d.value,
                f,
                values.border_bottom_width,
                up.border_bottom_width,
                first.border_bottom_width,
            ),
            ..values
        },
        Property::BorderLeftWidth => ComputedValues {
            border_left_width: resolve_size(
                d.value,
                f,
                values.border_left_width,
                up.border_left_width,
                first.border_left_width,
            ),
            ..values
        },
    }
}

impl DeclarationBlock {
    /// Applies the declarations of the block that are marked important or not as
    /// `important` says and that are early or late as `early` says, in order.
    pub fn cascade(
        &self,
        values: ComputedValues,
        important: bool,
        early: bool,
        parent: Option<ComputedValues>,
    ) -> (r: ComputedValues)
        ensures
            r == applied(values, self@, important, early, parent),
    {
        let mut r = values;
        let mut i: usize = 0;
        assert(self@.take(0) =~= Seq::<Declaration>::empty());
        while i < self.declarations.len()
            invariant
                i <= self.declarations@.len(),
                r == applied(values, self@.take(i as int), important, early, parent),
            decreases self.declarations@.len() - i,
        {
            let d = self.declarations[i];
            proof {
                assert(self@.take(i + 1).drop_last() =~= self@.take(i as int));
                assert(self@.take(i + 1).last() == d);
            }
            if d.important == important && d.property.is_early() == early {
                r = apply_one(r, d, parent);
            }
            i += 1;
        }
        assert(self@.take(self@.len() as int) =~= self@);
        r
    }

    /// Applies the declarations of the block that are not marked important.
    pub fn cascade_normal(&self, values: ComputedValues, early: bool, parent: Option<ComputedValues>) -> (r:
        ComputedValues)
        ensures
            r == applied(values, self@, false, early, parent),
    {
        self.cascade(values, false, early, parent)
    }

    /// Applies the declarations of the block that are marked important.
    pub fn cascade_important(
        &self,
        values: ComputedValues,
        early: bool,
        parent: Option<ComputedValues>,
    ) -> (r: ComputedValues)
        ensures
            r == applied(values, self@, true, early, parent),
    {
        self.cascade(values, true, early, parent)
    }
}

/// Applies the blocks that `indices` list, in order.
fn cascade_blocks(
    author: &StyleSet,
    indices: &Vec<usize>,
    values: ComputedValues,
    important: bool,
    early: bool,
    parent: Option<ComputedValues>,
    Ghost(blocks): Ghost<Seq<Seq<Declaration>>>,
) -> (r: ComputedValues)
    requires
        indices@.len() == blocks.len(),
        forall|k: int| 0 <= k < indices@.len() ==> #[trigger] indices@[k] < author.blocks@.len(),
        forall|k: int|
            0 <= k < indices@.len() ==> author.blocks@[#[trigger] indices@[k] as int]@ == blocks[k],
    ensures
        r == applied_blocks(values, blocks, important, early, parent),
{
    let mut r = values;
    let mut k: usize = 0;
    assert(blocks.take(0) =~= Seq::<Seq<Declaration>>::empty());
    while k < indices.len()
        invariant
            k <= indices@.len(),
            indices@.len() == blocks.len(),
            forall|j: int| 0 <= j < indices@.len() ==> #[trigger] indices@[j] < author.blocks@.len(),
            forall|j: int|
                0 <= j < indices@.len() ==> author.blocks@[#[trigger] indices@[j] as int]@
                    == blocks[j],
            r == applied_blocks(values, blocks.take(k as int), important, early, parent),
        decreases indices@.len() - k,
    {
        proof {
            assert(blocks.take(k + 1).drop_last() =~= blocks.take(k as int));
            assert(blocks.take(k + 1).last() == blocks[k as int]);
        }
        r = author.blocks[indices[k]].cascade(r, important, early, parent);
        k += 1;
    }
    assert(blocks.take(blocks.len() as int) =~= blocks);
    r
}

/// The values of the element, looking at most `fuel` parents up.
fn style_bounded(element: &ElementRef, author: &StyleSet, document: &Document, fuel: usize) -> (values:
    ComputedValues)
    requires
        element.wf(document),
        author.wf(),
    ensures
        values == style_within(author@, document, element.node as int, fuel as nat),
    decreases fuel,
{
    let parent = if fuel > 0 {
        match element.parent_element(document) {
            Some(p) => Some(style_bounded(&p, author, document, fuel - 1)),
            None => None,
        }
    } else {
        None
    };
    let ghost entries = author@;
    let ghost node = element.node as int;
    let mut indices: Vec<usize> = Vec::new();
    let mut i: usize = 0;
    while i < author.entries.len()
        invariant
            i <= author.entries@.len(),
            author.wf(),
            entries == author@,
            element.wf(document),
            node == element.node as int,
            indices@.len() == matching(entries, document.tree, node, i as int).len(),
            forall|k: int| 0 <= k < indices@.len() ==> #[trigger] indices@[k] < author.blocks@.len(),
            forall|k: int|
                0 <= k < indices@.len() ==> author.blocks@[#[trigger] indices@[k] as int]@
                    == matching(entries, document.tree, node, i as int)[k],
        decreases author.entries@.len() - i,
    {
        assert(entries[i as int].group == author.entries@[i as int].selector.group);
        assert(entries[i as int].declarations
            == author.blocks@[author.entries@[i as int].block as int]@);
        if author.entries[i].selector.matches(&document.tree, element.node) {
            indices.push(author.entries[i].block);
        }
        i += 1;
    }
    let ghost blocks = matching(entries, document.tree, node, entries.len() as int);
    let inline = match element.attr(document, "style") {
        Some(text) => DeclarationBlock::parse(text.as_str()),
        None => {
            let none = DeclarationBlock { declarations: Vec::new() };
            assert(none@ =~= Seq::<Declaration>::empty());
            none
        },
    };
    assert(inline@ == inline_declarations(document, node));
    let v0 = ComputedValues::new(parent);
    let v1 = cascade_blocks(author, &indices, v0, false, true, parent, Ghost(blocks));
    let v2 = inline.cascade_normal(v1, true, parent);
    let v3 = cascade_blocks(author, &indices, v2, true, true, parent, Ghost(blocks));
    let v4 = inline.cascade_important(v3, true, parent);
    let v5 = cascade_blocks(author, &indices, v4, false, false, parent, Ghost(blocks));
    let v6 = inline.cascade_normal(v5, false, parent);
    let v7 = cascade_blocks(author, &indices, v6, true, false, parent, Ghost(blocks));
    inline.cascade_important(v7, false, parent)
}

/// The values of the properties of an element under the style sheets of the author.
pub fn style_for_element_ref(element: &ElementRef, author: &StyleSet, document: &Document) -> (values:
    ComputedValues)
    requires
        element.wf(document),
        author.wf(),
    ensures
        values == style_of(author@, document, element.node as int),
{
    style_bounded(element, author, document, document.len())
}

} // verus!
