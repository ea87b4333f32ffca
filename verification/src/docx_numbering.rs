//! The numbering part of a DOCX document: the list formats (bullets,
//! decimal numbers, checked and open task boxes) and the instances that
//! lists refer to, one per ordered list with its first number.

use vstd::prelude::*;
use crate::docx_registry::OrderedListDefinition;
use crate::text::{decimal, push_char, push_decimal, to_string};

verus! {

/// How the items of a list level are numbered.
#[derive(Clone, Copy, Debug, PartialEq, Eq)]
pub enum NumberFormat {
    Bullet,
    Decimal,
}

/// One level of a list format: its index, format and text (`%1.` stands
/// for the number of level 1), numbered from 1, the text followed by a
/// tab, left aligned, indented 420 twips per level with a hanging indent
/// of 240 twips.
#[derive(Clone, Debug)]
pub struct NumberingLevel {
    pub level: i32,
    pub format: NumberFormat,
    pub text: String,
    pub start: i32,
    pub indent_left: i64,
    pub hanging: u64,
}

pub struct NumberingLevelV {
    pub level: i32,
    pub format: NumberFormat,
    pub text: Seq<char>,
    pub start: i32,
    pub indent_left: i64,
    pub hanging: u64,
}

impl View for NumberingLevel {
    type V = NumberingLevelV;

    open spec fn view(&self) -> NumberingLevelV {
        NumberingLevelV {
            level: self.level,
            format: self.format,
            text: self.text@,
            start: self.start,
            indent_left: self.indent_left,
            hanging: self.hanging,
        }
    }
}

/// The level text: `%n.` for decimal levels (n the level's number),
/// `text` for bullets.
pub open spec fn level_text(level: int, format: NumberFormat, text: Seq<char>) -> Seq<char> {
    if format == NumberFormat::Decimal { seq!['%'] + decimal((level + 1) as nat) + seq!['.'] } else { text }
}

pub open spec fn level_v(level: int, format: NumberFormat, text: Seq<char>) -> NumberingLevelV {
    NumberingLevelV {
        level: level as i32,
        format,
        text: level_text(level, format, text),
        start: 1,
        indent_left: ((level + 1) * 420) as i64,
        hanging: 240,
    }
}

/// One level of a list format (see `level_v`).
pub fn numbering_level(level: i32, format: NumberFormat, text: &str) -> (r: NumberingLevel)
    requires
        0 <= level < 9,
    ensures
        r@ == level_v(level as int, format, text@),
{
    let t = match format {
        NumberFormat::Decimal => {
            let mut s = String::new();
            push_char(&mut s, '%');
            push_decimal(&mut s, (level + 1) as u64);
            push_char(&mut s, '.');
            assert(s@ =~= seq!['%'] + decimal((level + 1) as nat) + seq!['.']);
            s
        },
        NumberFormat::Bullet => to_string(text),
    };
    NumberingLevel {
        level,
        format,
        text: t,
        start: 1,
        indent_left: ((level as i64) + 1) * 420,
        hanging: 240,
    }
}

/// A list format: its id and its nine levels.
#[derive(Clone, Debug)]
pub struct AbstractNumbering {
    pub id: i32,
    pub levels: Vec<NumberingLevel>,
}

pub open spec fn levels_view(v: Seq<NumberingLevel>) -> Seq<NumberingLevelV> {
    Seq::new(v.len(), |i: int| v[i]@)
}

/// A list format with nine levels of `format` (see `level_v`).
pub fn abstract_numbering(id: i32, format: NumberFormat, text: &str) -> (r: AbstractNumbering)
    ensures
        r.id == id,
        levels_view(r.levels@) == Seq::new(9, |l: int| level_v(l, format, text@)),
{
    let mut levels: Vec<NumberingLevel> = Vec::new();
    let mut l: i32 = 0;
    while l < 9
        invariant
            0 <= l <= 9,
            levels_view(levels@) =~= Seq::new(l as nat, |k: int| level_v(k, format, text@)),
        decreases 9 - l,
    {
        let lv = numbering_level(l, format, text);
        let ghost before = levels@;
        levels.push(lv);
        assert(levels_view(levels@) =~= levels_view(before).push(lv@));
        l += 1;
    }
    AbstractNumbering { id, levels }
}

/// An instance that lists refer to: its id, its format, and for an ordered
/// list the level and first number it overrides.
#[derive(Clone, Copy, Debug, PartialEq, Eq)]
pub struct NumberingInstance {
    pub number_id: i32,
    pub abstract_id: i32,
    pub start_override: Option<(i32, i32)>,
}

/// An instance of format `abstract_id`.
pub fn numbering_instance(number_id: i32, abstract_id: i32) -> (r: NumberingInstance)
    ensures
        r == (NumberingInstance { number_id, abstract_id, start_override: None }),
{
    NumberingInstance { number_id, abstract_id, start_override: None }
}

/// The instance of an ordered list: decimal numbers (format 2), starting
/// at its first number (at most `i32::MAX`) on its level (at most 8).
pub open spec fn ordered_instance_v(d: OrderedListDefinition) -> NumberingInstance {
    NumberingInstance {
        number_id: d.number_id,
        abstract_id: 2,
        start_override: Some((
            (if d.level < 8 { d.level } else { 8 }) as i32,
            (if d.start < i32::MAX as u64 { d.start } else { i32::MAX as u64 }) as i32,
        )),
    }
}

/// The instance of an ordered list (see `ordered_instance_v`).
pub fn ordered_numbering_instance(d: &OrderedListDefinition) -> (r: NumberingInstance)
    ensures
        r == ordered_instance_v(*d),
{
    let level: i32 = if d.level < 8 { d.level as i32 } else { 8 };
    let start: i32 = if d.start < 2147483647u64 { d.start as i32 } else { 2147483647 };
    NumberingInstance { number_id: d.number_id, abstract_id: 2, start_override: Some((level, start)) }
}

/// The numbering part.
pub struct Numbering {
    pub abstracts: Vec<AbstractNumbering>,
    pub instances: Vec<NumberingInstance>,
}

/// The numbering part: formats 1 (bullet `-`), 2 (decimal), 3 (`[x]`) and
/// 4 (`[ ]`); instances 1, 3 and 4 of formats 1, 3 and 4, then one per
/// ordered list.
pub fn numbering_definitions(ordered_lists: &Vec<OrderedListDefinition>) -> (r: Numbering)
    ensures
        r.abstracts@.len() == 4,
        r.abstracts@[0].id == 1 && levels_view(r.abstracts@[0].levels@) == Seq::new(9, |l: int| level_v(l, NumberFormat::Bullet, "-"@)),
        r.abstracts@[1].id == 2 && levels_view(r.abstracts@[1].levels@) == Seq::new(9, |l: int| level_v(l, NumberFormat::Decimal, "%1."@)),
        r.abstracts@[2].id == 3 && levels_view(r.abstracts@[2].levels@) == Seq::new(9, |l: int| level_v(l, NumberFormat::Bullet, "[x]"@)),
        r.abstracts@[3].id == 4 && levels_view(r.abstracts@[3].levels@) == Seq::new(9, |l: int| level_v(l, NumberFormat::Bullet, "[ ]"@)),
        r.instances@ == seq![
            NumberingInstance { number_id: 1, abstract_id: 1, start_override: None },
            NumberingInstance { number_id: 3, abstract_id: 3, start_override: None },
            NumberingInstance { number_id: 4, abstract_id: 4, start_override: None },
        ] + Seq::new(ordered_lists@.len(), |i: int| ordered_instance_v(ordered_lists@[i])),
{
    let abstracts = vec![
        abstract_numbering(1, NumberFormat::Bullet, "-"),
        abstract_numbering(2, NumberFormat::Decimal, "%1."),
        abstract_numbering(3, NumberFormat::Bullet, "[x]"),
        abstract_numbering(4, NumberFormat::Bullet, "[ ]"),
    ];
    let mut instances = vec![numbering_instance(1, 1), numbering_instance(3, 3), numbering_instance(4, 4)];
    let ghost head = instances@;
    let mut i: usize = 0;
    while i < ordered_lists.len()
        invariant
            i <= ordered_lists.len(),
            head == seq![
                NumberingInstance { number_id: 1, abstract_id: 1, start_override: None },
                NumberingInstance { number_id: 3, abstract_id: 3, start_override: None },
                NumberingInstance { number_id: 4, abstract_id: 4, start_override: None },
            ],
            instances@ =~= head + Seq::new(i as nat, |k: int| ordered_instance_v(ordered_lists@[k])),
        decreases ordered_lists.len() - i,
    {
        instances.push(ordered_numbering_instance(&ordered_lists[i]));
        i += 1;
    }
    Numbering { abstracts, instances }
}

} // verus!
