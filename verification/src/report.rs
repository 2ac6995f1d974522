//! What a diary shows of its entries: a summary line for listings, and a
//! readable block for exports.

use vstd::prelude::*;
use vstd::string::*;
use crate::entry::{decimal, decimal_string, find_char, lemma_position, position, DiaryEntry, EntryView};

verus! {

/// The character that parts the date of a timestamp from its time.
pub const DATE_TIME_SEPARATOR: char = ' ';

/// The date of a timestamp: what stands before its first space.
pub open spec fn date_part(timestamp: Seq<char>) -> Seq<char> {
    timestamp.subrange(0, position(timestamp, DATE_TIME_SEPARATOR, 0))
}

/// The time of a timestamp: what stands after its first space, or nothing
/// where it has no space.
pub open spec fn time_part(timestamp: Seq<char>) -> Seq<char> {
    let at = position(timestamp, DATE_TIME_SEPARATOR, 0);
    if at < timestamp.len() {
        timestamp.subrange(at + 1, timestamp.len() as int)
    } else {
        Seq::empty()
    }
}

/// What a listing shows of an entry: date, time and word count, never the
/// content.
pub open spec fn summary_spec(entry: EntryView) -> (Seq<char>, Seq<char>, u32) {
    (date_part(entry.timestamp), time_part(entry.timestamp), entry.word_count)
}

/// A summary as plain values.
pub open spec fn summary_view(summary: (String, String, u32)) -> (Seq<char>, Seq<char>, u32) {
    (summary.0@, summary.1@, summary.2)
}

/// A list of summaries as plain values.
pub open spec fn summaries_view(summaries: Seq<(String, String, u32)>) -> Seq<
    (Seq<char>, Seq<char>, u32),
> {
    summaries.map_values(|s: (String, String, u32)| summary_view(s))
}

/// The text that stands between two blocks of an export.
pub open spec fn block_separator() -> Seq<char> {
    "---\n"@
}

/// The block that an export shows for an entry: timestamp, word count and
/// the full content, each under its label.
pub open spec fn export_block_spec(entry: EntryView) -> Seq<char> {
    "时间："@ + entry.timestamp + "\n字数："@ + decimal(entry.word_count as nat) + "\n内容：\n"@
        + entry.content + "\n\n"@
}

/// The blocks in order, with the separator between each two.
pub open spec fn join_blocks(blocks: Seq<Seq<char>>) -> Seq<char>
    decreases blocks.len(),
{
    if blocks.len() == 0 {
        Seq::empty()
    } else if blocks.len() == 1 {
        blocks[0]
    } else {
        join_blocks(blocks.drop_last()) + block_separator() + blocks.last()
    }
}

/// An export text with one more block at its end.
pub open spec fn append_block_spec(text: Seq<char>, block: Seq<char>) -> Seq<char> {
    if text.len() == 0 {
        block
    } else {
        text + block_separator() + block
    }
}

/// No block is empty: the labels are always there.
pub proof fn lemma_export_block_not_empty(entry: EntryView)
    ensures
        export_block_spec(entry).len() > 0,
{
    reveal_strlit("\n\n");
}

/// Joining blocks of which none is empty, and then one more, is appending
/// that block to the text of the others.
pub proof fn lemma_join_push(blocks: Seq<Seq<char>>, block: Seq<char>)
    requires
        forall|i: int| 0 <= i < blocks.len() ==> (#[trigger] blocks[i]).len() > 0,
    ensures
        join_blocks(blocks.push(block)) == append_block_spec(join_blocks(blocks), block),
        blocks.len() > 0 ==> join_blocks(blocks).len() > 0,
    decreases blocks.len(),
{
    assert(blocks.push(block).drop_last() =~= blocks);
    if blocks.len() > 1 {
        let rest = blocks.drop_last();
        lemma_join_push(rest, blocks.last());
    }
}

/// Cuts a timestamp at its first space into date and time.
pub fn split_timestamp(timestamp: &str) -> (parts: (String, String))
    ensures
        parts.0@ == date_part(timestamp@),
        parts.1@ == time_part(timestamp@),
{
    let n = timestamp.unicode_len();
    let at = find_char(timestamp, DATE_TIME_SEPARATOR, 0);
    proof {
        lemma_position(timestamp@, DATE_TIME_SEPARATOR, 0);
    }
    let date = String::from_str(timestamp.substring_char(0, at));
    let time = if at < n {
        String::from_str(timestamp.substring_char(at + 1, n))
    } else {
        String::new()
    };
    (date, time)
}

/// The summary of an entry for a listing.
pub fn summary(entry: &DiaryEntry) -> (line: (String, String, u32))
    ensures
        summary_view(line) == summary_spec(entry@),
{
    let (date, time) = split_timestamp(entry.timestamp.as_str());
    (date, time, entry.word_count)
}

/// The block of an entry for an export.
pub fn export_block(entry: &DiaryEntry) -> (block: String)
    ensures
        block@ == export_block_spec(entry@),
{
    let count = decimal_string(entry.word_count);
    let mut block = String::from_str("时间：");
    block.append(entry.timestamp.as_str());
    block.append("\n字数：");
    block.append(count.as_str());
    block.append("\n内容：\n");
    block.append(entry.content.as_str());
    block.append("\n\n");
    block
}

/// Puts one more block at the end of an export text, after a separator
/// unless it is the first.
pub fn append_block(text: &mut String, block: &str)
    ensures
        final(text)@ == append_block_spec(old(text)@, block@),
{
    if !text.as_str().is_empty() {
        text.append("---\n");
    }
    text.append(block);
}

} // verus!
