//! Story records: one row of the story file, read by position.

use crate::text::{i32_or, parse_i32_or, same_text, signed_numeral, trim, trimmed};
use vstd::prelude::*;

verus! {

/// The number of leading fields of a row that a record is read from.
pub const RECORD_FIELDS: usize = 4;

/// The kind that marks a record as a story node.
pub const NODE_KIND: &'static str = "SITUACION";

/// The kind that marks a record as a choice of the node before it.
pub const CHOICE_KIND: &'static str = "OPCION";

/// One row of the story file. For a node, `tag` is the node's key; for a
/// choice, it is the key of the node that the choice leads to.
#[derive(Debug, PartialEq, Eq)]
pub struct StoryRecord {
    pub kind: String,
    pub tag: String,
    pub text: String,
    pub life_delta: i32,
}

/// What a [`StoryRecord`] holds, as mathematical values.
pub struct RecordView {
    pub kind: Seq<char>,
    pub tag: Seq<char>,
    pub text: Seq<char>,
    pub life_delta: int,
}

impl View for StoryRecord {
    type V = RecordView;

    open spec fn view(&self) -> RecordView {
        RecordView {
            kind: self.kind@,
            tag: self.tag@,
            text: self.text@,
            life_delta: self.life_delta as int,
        }
    }
}

impl DeepView for StoryRecord {
    type V = RecordView;

    open spec fn deep_view(&self) -> RecordView {
        self@
    }
}

impl RecordView {
    /// Whether the record describes a story node.
    pub open spec fn is_node(self) -> bool {
        self.kind == NODE_KIND@
    }

    /// Whether the record describes a choice.
    pub open spec fn is_choice(self) -> bool {
        self.kind == CHOICE_KIND@
    }
}

/// The record that a row of at least [`RECORD_FIELDS`] fields is read as:
/// kind, tag and text are the first three fields without the whitespace
/// around them; the life delta is the number that the fourth writes, or 0
/// where it writes none that fits.
pub open spec fn record_of(fields: Seq<Seq<char>>) -> RecordView {
    RecordView {
        kind: trimmed(fields[0]),
        tag: trimmed(fields[1]),
        text: trimmed(fields[2]),
        life_delta: i32_or(trimmed(fields[3]), 0) as int,
    }
}

/// The life delta of a record is exactly the integer that its fourth field
/// writes, whenever that field, trimmed, is a signed numeral within `i32`;
/// with any other fourth field it is 0.
pub proof fn lemma_life_delta(fields: Seq<Seq<char>>)
    ensures
        match signed_numeral(trimmed(fields[3])) {
            Some(v) => if i32::MIN <= v <= i32::MAX {
                record_of(fields).life_delta == v
            } else {
                record_of(fields).life_delta == 0
            },
            None => record_of(fields).life_delta == 0,
        },
{
}

impl StoryRecord {
    /// Reads a record from the fields of one row. A row with fewer than
    /// [`RECORD_FIELDS`] fields gives no record; fields beyond those are not
    /// looked at.
    pub fn from_fields(fields: &Vec<String>) -> (r: Option<StoryRecord>)
        ensures
            match r {
                Some(record) => fields.len() >= RECORD_FIELDS && record@ == record_of(
                    fields.deep_view(),
                ),
                None => fields.len() < RECORD_FIELDS,
            },
    {
        if fields.len() < RECORD_FIELDS {
            return None;
        }
        let life_delta: i32 = parse_i32_or(trim(fields[3].as_str()), 0);
        Some(
            StoryRecord {
                kind: trim(fields[0].as_str()).to_owned(),
                tag: trim(fields[1].as_str()).to_owned(),
                text: trim(fields[2].as_str()).to_owned(),
                life_delta,
            },
        )
    }

    /// Whether this record describes a story node.
    pub fn is_node(&self) -> (r: bool)
        ensures
            r == self@.is_node(),
    {
        same_text(self.kind.as_str(), NODE_KIND)
    }

    /// Whether this record describes a choice.
    pub fn is_choice(&self) -> (r: bool)
        ensures
            r == self@.is_choice(),
    {
        same_text(self.kind.as_str(), CHOICE_KIND)
    }
}

impl Clone for StoryRecord {
    fn clone(&self) -> (r: Self)
        ensures
            r@ == self@,
    {
        StoryRecord {
            kind: self.kind.clone(),
            tag: self.tag.clone(),
            text: self.text.clone(),
            life_delta: self.life_delta,
        }
    }
}

} // verus!
