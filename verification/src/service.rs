//! The diary service: saving, listing, exporting and importing.
//!
//! A diary is a sequence of stored lines in the order in which they were
//! written. Saving makes one new line for the caller to append; listing and
//! exporting read the lines in order. A line that is malformed is passed
//! over; the first line that fails authentication ends the reading, since a
//! wrong password makes every later line unreadable too.

use vstd::prelude::*;
use vstd::string::*;
use vstd::utf8::encode_utf8;
use crate::codec::{
    decode,
    decode_spec,
    encode,
    encode_spec,
    fresh_nonce,
    is_base64_text,
    open_text_spec,
    seal_text,
    seal_text_spec,
};
use crate::entry::{parse_plaintext_spec, serialize, DiaryEntry, EntryView, SEPARATOR};
use crate::error::{DecodeFailure, EncodeFailure};
use crate::key::{derive_key, derive_key_spec, SymmetricKey};
use crate::record::{record_of_line, sealable, NONCE_LEN};
use crate::report::{
    append_block,
    append_block_spec,
    export_block,
    export_block_spec,
    join_blocks,
    lemma_export_block_not_empty,
    lemma_join_push,
    summaries_view,
    summary,
    summary_spec,
};

verus! {

/// The timestamp that an imported text is filed under.
pub open spec fn import_timestamp() -> Seq<char> {
    "导入时间"@
}

/// Stored lines as plain values.
pub open spec fn lines_view(lines: Seq<String>) -> Seq<Seq<char>> {
    lines.map_values(|line: String| line@)
}

/// What reading makes of one line: an entry, nothing for a malformed line,
/// or the failure that ends the reading.
pub open spec fn scan_line_spec(line: Seq<char>, key: Seq<u8>) -> Result<
    Option<EntryView>,
    DecodeFailure,
> {
    match decode_spec(line, key) {
        Ok(entry) => Ok(Some(entry)),
        Err(DecodeFailure::MalformedEncoding) => Ok(None),
        Err(DecodeFailure::AuthenticationFailure) => Err(DecodeFailure::AuthenticationFailure),
    }
}

/// The entries that the lines hold under `key`, in the order of the lines,
/// or the failure of the first line that ends the reading.
pub open spec fn scan_spec(lines: Seq<Seq<char>>, key: Seq<u8>) -> Result<
    Seq<EntryView>,
    DecodeFailure,
>
    decreases lines.len(),
{
    if lines.len() == 0 {
        Ok(Seq::empty())
    } else {
        match scan_spec(lines.drop_last(), key) {
            Err(e) => Err(e),
            Ok(entries) => match scan_line_spec(lines.last(), key) {
                Ok(Some(entry)) => Ok(entries.push(entry)),
                Ok(None) => Ok(entries),
                Err(e) => Err(e),
            },
        }
    }
}

/// The listing of the lines under `key`: one summary for each entry.
pub open spec fn list_spec(lines: Seq<Seq<char>>, key: Seq<u8>) -> Result<
    Seq<(Seq<char>, Seq<char>, u32)>,
    DecodeFailure,
> {
    match scan_spec(lines, key) {
        Ok(entries) => Ok(entries.map_values(|e: EntryView| summary_spec(e))),
        Err(e) => Err(e),
    }
}

/// The export of the lines under `key`: the blocks of the entries, joined.
pub open spec fn export_spec(lines: Seq<Seq<char>>, key: Seq<u8>) -> Result<
    Seq<char>,
    DecodeFailure,
> {
    match scan_spec(lines, key) {
        Ok(entries) => Ok(join_blocks(entries.map_values(|e: EntryView| export_block_spec(e)))),
        Err(e) => Err(e),
    }
}

/// A failure among the first `n` lines is the failure of the whole reading.
pub proof fn lemma_scan_failure_stays(lines: Seq<Seq<char>>, key: Seq<u8>, n: int)
    requires
        0 <= n <= lines.len(),
        scan_spec(lines.take(n), key) is Err,
    ensures
        scan_spec(lines, key) == scan_spec(lines.take(n), key),
    decreases lines.len() - n,
{
    if n < lines.len() {
        assert(lines.take(n + 1).drop_last() =~= lines.take(n));
        lemma_scan_failure_stays(lines, key, n + 1);
    } else {
        assert(lines.take(n) =~= lines);
    }
}

/// A reading fails exactly where some line fails authentication, and with
/// that failure; malformed lines never end it.
pub proof fn lemma_scan_fails_exactly_on_failed_authentication(
    lines: Seq<Seq<char>>,
    key: Seq<u8>,
)
    ensures
        scan_spec(lines, key) is Err <==> exists|i: int|
            0 <= i < lines.len() && #[trigger] decode_spec(lines[i], key) == Err::<
                EntryView,
                DecodeFailure,
            >(DecodeFailure::AuthenticationFailure),
        scan_spec(lines, key) matches Err(e) ==> e == DecodeFailure::AuthenticationFailure,
    decreases lines.len(),
{
    if lines.len() > 0 {
        let rest = lines.drop_last();
        let last = lines.len() - 1;
        lemma_scan_fails_exactly_on_failed_authentication(rest, key);
        if scan_spec(rest, key) is Err {
            let i = choose|i: int|
                0 <= i < rest.len() && #[trigger] decode_spec(rest[i], key) == Err::<
                    EntryView,
                    DecodeFailure,
                >(DecodeFailure::AuthenticationFailure);
            assert(decode_spec(lines[i], key) == Err::<EntryView, DecodeFailure>(
                DecodeFailure::AuthenticationFailure,
            ));
        } else if scan_line_spec(lines.last(), key) is Err {
            assert(decode_spec(lines[last], key) == Err::<EntryView, DecodeFailure>(
                DecodeFailure::AuthenticationFailure,
            ));
        } else {
            assert forall|i: int| 0 <= i < lines.len() implies #[trigger] decode_spec(
                lines[i],
                key,
            ) != Err::<EntryView, DecodeFailure>(DecodeFailure::AuthenticationFailure) by {
                if i < last {
                    assert(rest[i] == lines[i]);
                }
            }
        }
    }
}

/// A line that holds an entry under one key is never passed over under
/// another: there it is read as an entry too, or it fails authentication.
pub proof fn lemma_other_key_reads_or_fails_authentication(
    line: Seq<char>,
    key: Seq<u8>,
    other: Seq<u8>,
)
    requires
        decode_spec(line, key) is Ok,
    ensures
        decode_spec(line, other) is Ok || decode_spec(line, other) == Err::<
            EntryView,
            DecodeFailure,
        >(DecodeFailure::AuthenticationFailure),
        scan_line_spec(line, other) != Ok::<Option<EntryView>, DecodeFailure>(None),
{
}

/// Reads one line of a diary under `key`.
///
/// Gives the entry that the line holds, nothing for a malformed line, and
/// fails where the line does not authenticate.
pub fn scan_line(line: &str, key: &SymmetricKey) -> (found: Result<
    Option<DiaryEntry>,
    DecodeFailure,
>)
    ensures
        match found {
            Ok(Some(entry)) => scan_line_spec(line@, key@) == Ok::<
                Option<EntryView>,
                DecodeFailure,
            >(Some(entry@)),
            Ok(None) => scan_line_spec(line@, key@) == Ok::<Option<EntryView>, DecodeFailure>(
                None,
            ),
            Err(e) => scan_line_spec(line@, key@) == Err::<Option<EntryView>, DecodeFailure>(e),
        },
{
    match decode(line, key) {
        Ok(entry) => Ok(Some(entry)),
        Err(DecodeFailure::MalformedEncoding) => Ok(None),
        Err(DecodeFailure::AuthenticationFailure) => Err(DecodeFailure::AuthenticationFailure),
    }
}

/// Takes a listing one line further: the summary of the line's entry is put
/// at its end, a malformed line changes nothing, and a line that does not
/// authenticate fails and changes nothing.
pub fn list_next(items: &mut Vec<(String, String, u32)>, line: &str, key: &SymmetricKey) -> (step:
    Result<(), DecodeFailure>)
    ensures
        match scan_line_spec(line@, key@) {
            Ok(Some(entry)) => step is Ok && summaries_view(final(items)@) == summaries_view(
                old(items)@,
            ).push(summary_spec(entry)),
            Ok(None) => step is Ok && final(items)@ == old(items)@,
            Err(e) => step == Err::<(), DecodeFailure>(e) && final(items)@ == old(items)@,
        },
{
    match scan_line(line, key) {
        Ok(Some(entry)) => {
            let item = summary(&entry);
            items.push(item);
            assert(summaries_view(items@) =~= summaries_view(old(items)@).push(
                summary_spec(entry@),
            ));
            Ok(())
        },
        Ok(None) => Ok(()),
        Err(e) => Err(e),
    }
}

/// Takes an export one line further: the block of the line's entry is put at
/// the end of the text, a malformed line changes nothing, and a line that
/// does not authenticate fails and changes nothing.
pub fn export_next(text: &mut String, line: &str, key: &SymmetricKey) -> (step: Result<
    (),
    DecodeFailure,
>)
    ensures
        match scan_line_spec(line@, key@) {
            Ok(Some(entry)) => step is Ok && final(text)@ == append_block_spec(
                old(text)@,
                export_block_spec(entry),
            ),
            Ok(None) => step is Ok && final(text)@ == old(text)@,
            Err(e) => step == Err::<(), DecodeFailure>(e) && final(text)@ == old(text)@,
        },
{
    match scan_line(line, key) {
        Ok(Some(entry)) => {
            let block = export_block(&entry);
            append_block(text, block.as_str());
            Ok(())
        },
        Ok(None) => Ok(()),
        Err(e) => Err(e),
    }
}

/// Lists the entries of a diary: date, time and word count of each, in the
/// order of the lines.
///
/// Malformed lines are passed over. The first line that does not
/// authenticate under the key of `password` fails the whole listing.
pub fn load_diary(lines: &Vec<String>, password: &str) -> (listing: Result<
    Vec<(String, String, u32)>,
    DecodeFailure,
>)
    ensures
        match listing {
            Ok(items) => list_spec(lines_view(lines@), derive_key_spec(password@)) == Ok::<
                Seq<(Seq<char>, Seq<char>, u32)>,
                DecodeFailure,
            >(summaries_view(items@)),
            Err(e) => e == DecodeFailure::AuthenticationFailure && list_spec(
                lines_view(lines@),
                derive_key_spec(password@),
            ) == Err::<Seq<(Seq<char>, Seq<char>, u32)>, DecodeFailure>(e),
        },
{
    let key = derive_key(password);
    let ghost all = lines_view(lines@);
    let mut items: Vec<(String, String, u32)> = Vec::new();
    let mut i: usize = 0;
    assert(summaries_view(items@) =~= Seq::<EntryView>::empty().map_values(
        |e: EntryView| summary_spec(e),
    ));
    while i < lines.len()
        invariant
            i <= lines.len(),
            all == lines_view(lines@),
            key@ == derive_key_spec(password@),
            list_spec(all.take(i as int), key@) == Ok::<
                Seq<(Seq<char>, Seq<char>, u32)>,
                DecodeFailure,
            >(summaries_view(items@)),
        decreases lines.len() - i,
    {
        proof {
            assert(all.take(i + 1).drop_last() =~= all.take(i as int));
            assert(all.take(i + 1).last() == lines@[i as int]@);
        }
        let ghost entries = scan_spec(all.take(i as int), key@)->Ok_0;
        match list_next(&mut items, lines[i].as_str(), &key) {
            Ok(()) => {
                proof {
                    match scan_line_spec(lines@[i as int]@, key@) {
                        Ok(Some(entry)) => {
                            assert(entries.push(entry).map_values(|e: EntryView| summary_spec(e))
                                =~= entries.map_values(|e: EntryView| summary_spec(e)).push(
                                summary_spec(entry),
                            ));
                        },
                        _ => {},
                    }
                }
            },
            Err(e) => {
                proof {
                    lemma_scan_failure_stays(all, key@, i + 1);
                }
                return Err(e);
            },
        }
        i = i + 1;
    }
    assert(all.take(i as int) =~= all);
    Ok(items)
}

/// Exports the entries of a diary as one text: the block of each entry, in
/// the order of the lines, with a separator between each two.
///
/// Malformed lines are passed over. The first line that does not
/// authenticate under the key of `password` fails the whole export. The
/// second password plays no part.
pub fn export_diary(lines: &Vec<String>, password: &str, _export_pwd: &str) -> (export: Result<
    String,
    DecodeFailure,
>)
    ensures
        match export {
            Ok(text) => export_spec(lines_view(lines@), derive_key_spec(password@)) == Ok::<
                Seq<char>,
                DecodeFailure,
            >(text@),
            Err(e) => e == DecodeFailure::AuthenticationFailure && export_spec(
                lines_view(lines@),
                derive_key_spec(password@),
            ) == Err::<Seq<char>, DecodeFailure>(e),
        },
{
    let key = derive_key(password);
    let ghost all = lines_view(lines@);
    let mut text = String::new();
    let mut i: usize = 0;
    assert(Seq::<EntryView>::empty().map_values(|e: EntryView| export_block_spec(e)) =~= Seq::<
        Seq<char>,
    >::empty());
    while i < lines.len()
        invariant
            i <= lines.len(),
            all == lines_view(lines@),
            key@ == derive_key_spec(password@),
            export_spec(all.take(i as int), key@) == Ok::<Seq<char>, DecodeFailure>(text@),
        decreases lines.len() - i,
    {
        proof {
            assert(all.take(i + 1).drop_last() =~= all.take(i as int));
            assert(all.take(i + 1).last() == lines@[i as int]@);
        }
        let ghost entries = scan_spec(all.take(i as int), key@)->Ok_0;
        match export_next(&mut text, lines[i].as_str(), &key) {
            Ok(()) => {
                proof {
                    match scan_line_spec(lines@[i as int]@, key@) {
                        Ok(Some(entry)) => {
                            let blocks = entries.map_values(|e: EntryView| export_block_spec(e));
                            assert(entries.push(entry).map_values(
                                |e: EntryView| export_block_spec(e),
                            ) =~= blocks.push(export_block_spec(entry)));
                            assert forall|k: int| 0 <= k < blocks.len() implies (
                            #[trigger] blocks[k]).len() > 0 by {
                                lemma_export_block_not_empty(entries[k]);
                            }
                            lemma_join_push(blocks, export_block_spec(entry));
                        },
                        _ => {},
                    }
                }
            },
            Err(e) => {
                proof {
                    lemma_scan_failure_stays(all, key@, i + 1);
                }
                return Err(e);
            },
        }
        i = i + 1;
    }
    assert(all.take(i as int) =~= all);
    Ok(text)
}

/// Makes the line that saves one diary write under the key of `password`,
/// sealed with a fresh random nonce. The caller appends it to the diary.
///
/// Fails where the random source fails, and otherwise exactly where the
/// plaintext cannot be sealed. The line is read back, under the same
/// password, as the entry that was saved, provided `datetime` holds no
/// separator.
pub fn save_diary(content: &str, datetime: &str, words: u32, password: &str) -> (line: Result<
    String,
    EncodeFailure,
>)
    ensures
        ({
            let key = derive_key_spec(password@);
            let entry = EntryView { timestamp: datetime@, word_count: words, content: content@ };
            match line {
                Ok(l) => {
                    &&& exists|nonce: Seq<u8>|
                        nonce.len() == NONCE_LEN && #[trigger] encode_spec(entry, key, nonce)
                            == Some(l@)
                    &&& decode_spec(l@, key) == Ok::<EntryView, DecodeFailure>(
                        parse_plaintext_spec(serialize(entry)),
                    )
                    &&& !datetime@.contains(SEPARATOR) ==> decode_spec(l@, key) == Ok::<
                        EntryView,
                        DecodeFailure,
                    >(entry)
                    &&& is_base64_text(l@)
                },
                Err(e) => e == EncodeFailure::RandomSource || (e == EncodeFailure::Cipher
                    && !sealable(encode_utf8(serialize(entry)).len())),
            }
        }),
{
    let key = derive_key(password);
    let entry = DiaryEntry {
        timestamp: String::from_str(datetime),
        word_count: words,
        content: String::from_str(content),
    };
    encode(&entry, &key)
}

/// Makes the line that saves an imported text: one entry with the import
/// timestamp, a word count of zero, and the whole text as its content. The
/// second password plays no part.
///
/// Fails and succeeds as `save_diary` does, and the line is read back as
/// that entry.
pub fn import_diary(password: &str, _import_pwd: &str, content: &str) -> (line: Result<
    String,
    EncodeFailure,
>)
    ensures
        ({
            let key = derive_key_spec(password@);
            let entry = EntryView {
                timestamp: import_timestamp(),
                word_count: 0,
                content: content@,
            };
            match line {
                Ok(l) => {
                    &&& exists|nonce: Seq<u8>|
                        nonce.len() == NONCE_LEN && #[trigger] encode_spec(entry, key, nonce)
                            == Some(l@)
                    &&& decode_spec(l@, key) == Ok::<EntryView, DecodeFailure>(entry)
                    &&& is_base64_text(l@)
                },
                Err(e) => e == EncodeFailure::RandomSource || (e == EncodeFailure::Cipher
                    && !sealable(encode_utf8(serialize(entry)).len())),
            }
        }),
{
    proof {
        reveal_strlit("导入时间");
    }
    save_diary(content, "导入时间", 0, password)
}

/// Makes the line that stores `content` as it stands, with no timestamp or
/// word count before it, under the key of `password` and a fresh random
/// nonce.
///
/// Fails where the random source fails, and otherwise exactly where the
/// text cannot be sealed. The line opens to `content` under the same
/// password.
pub fn write_diary(password: &str, content: &str) -> (line: Result<String, EncodeFailure>)
    ensures
        ({
            let key = derive_key_spec(password@);
            match line {
                Ok(l) => {
                    &&& exists|nonce: Seq<u8>|
                        nonce.len() == NONCE_LEN && #[trigger] seal_text_spec(content@, key, nonce)
                            == Some(l@)
                    &&& open_text_spec(l@, key) == Ok::<Seq<char>, DecodeFailure>(content@)
                    &&& is_base64_text(l@)
                },
                Err(e) => e == EncodeFailure::RandomSource || (e == EncodeFailure::Cipher
                    && !sealable(encode_utf8(content@).len())),
            }
        }),
{
    let key = derive_key(password);
    match fresh_nonce() {
        Err(e) => Err(e),
        Ok(nonce) => seal_text(content, &key, nonce),
    }
}

/// Append-only order: a line that holds an entry, put at the end of a diary,
/// makes the diary one line longer and is read as its last entry, after all
/// that was there before.
pub proof fn lemma_appended_entry_is_last(
    lines: Seq<Seq<char>>,
    line: Seq<char>,
    key: Seq<u8>,
    entry: EntryView,
)
    requires
        decode_spec(line, key) == Ok::<EntryView, DecodeFailure>(entry),
    ensures
        lines.push(line).len() == lines.len() + 1,
        scan_spec(lines.push(line), key) == (match scan_spec(lines, key) {
            Ok(entries) => Ok(entries.push(entry)),
            Err(e) => Err(e),
        }),
        list_spec(lines.push(line), key) == (match list_spec(lines, key) {
            Ok(items) => Ok(items.push(summary_spec(entry))),
            Err(e) => Err(e),
        }),
{
    assert(lines.push(line).drop_last() =~= lines);
    match scan_spec(lines, key) {
        Ok(entries) => {
            assert(entries.push(entry).map_values(|e: EntryView| summary_spec(e))
                =~= entries.map_values(|e: EntryView| summary_spec(e)).push(summary_spec(entry)));
        },
        Err(_) => {},
    }
}

/// Two saves, one listing: a diary of two lines that hold one entry each
/// lists the first entry, then the second.
pub proof fn lemma_two_saves_list_in_order(
    first_line: Seq<char>,
    second_line: Seq<char>,
    key: Seq<u8>,
    first: EntryView,
    second: EntryView,
)
    requires
        decode_spec(first_line, key) == Ok::<EntryView, DecodeFailure>(first),
        decode_spec(second_line, key) == Ok::<EntryView, DecodeFailure>(second),
    ensures
        seq![first_line, second_line].len() == 2,
        list_spec(seq![first_line, second_line], key) == Ok::<
            Seq<(Seq<char>, Seq<char>, u32)>,
            DecodeFailure,
        >(seq![summary_spec(first), summary_spec(second)]),
{
    let none = Seq::<Seq<char>>::empty();
    lemma_appended_entry_is_last(none, first_line, key, first);
    lemma_appended_entry_is_last(none.push(first_line), second_line, key, second);
    assert(none.push(first_line).push(second_line) =~= seq![first_line, second_line]);
    assert(Seq::<EntryView>::empty().map_values(|e: EntryView| summary_spec(e)).push(
        summary_spec(first),
    ).push(summary_spec(second)) =~= seq![summary_spec(first), summary_spec(second)]);
}

/// A malformed line between others changes nothing: a line that is not
/// base64, or too short to hold a nonce, can be taken out of a diary without
/// any effect on what is read, listed or exported, and it raises no failure
/// of its own.
pub proof fn lemma_malformed_line_is_skipped(
    before: Seq<Seq<char>>,
    line: Seq<char>,
    after: Seq<Seq<char>>,
    key: Seq<u8>,
)
    requires
        record_of_line(line) is None,
    ensures
        scan_spec(before.push(line) + after, key) == scan_spec(before + after, key),
        list_spec(before.push(line) + after, key) == list_spec(before + after, key),
        export_spec(before.push(line) + after, key) == export_spec(before + after, key),
    decreases after.len(),
{
    if after.len() == 0 {
        assert(before.push(line) + after =~= before.push(line));
        assert(before + after =~= before);
        assert(before.push(line).drop_last() =~= before);
    } else {
        let rest = after.drop_last();
        lemma_malformed_line_is_skipped(before, line, rest, key);
        assert((before.push(line) + after).drop_last() =~= before.push(line) + rest);
        assert((before + after).drop_last() =~= before + rest);
    }
}

} // verus!
