//! Interpretation of captured output: the version banner and the list of
//! resolved dependencies.

use vstd::prelude::*;
use vstd::utf8::{decode_utf8, valid_utf8};
use crate::sandbox::{
    vec_to_str, CrateInformation, CrateInformationView, SandboxError, Version, VersionView,
};
use crate::text::{
    chars_of, find_char, first_index, line_ranges, lines, pieces, range_is, same_text, text_of,
    texts, trim_range, trimmed, within,
};

verus! {

/// The name and the value of a banner line: what stands before and after its
/// first colon, each without the blank characters around it. A line without
/// a colon holds no field.
pub open spec fn field_of_line(line: Seq<char>) -> Option<(Seq<char>, Seq<char>)> {
    let n = first_index(line, ':');
    if n < line.len() {
        Some((trimmed(line.take(n as int)), trimmed(line.skip(n as int + 1))))
    } else {
        None
    }
}

/// Whether `line` holds a field named `name`.
pub open spec fn names_field(line: Seq<char>, name: Seq<char>) -> bool {
    field_of_line(line) matches Some(pair) && pair.0 == name
}

/// The value of the first of `lines` whose field is named `name`.
pub open spec fn field(lines: Seq<Seq<char>>, name: Seq<char>) -> Option<Seq<char>>
    decreases lines.len(),
{
    if lines.len() == 0 {
        None
    } else if names_field(lines[0], name) {
        Some(field_of_line(lines[0]).unwrap().1)
    } else {
        field(lines.drop_first(), name)
    }
}

/// Whether a field was found with a value that is not empty.
pub open spec fn present(value: Option<Seq<char>>) -> bool {
    value matches Some(v) && v.len() > 0
}

/// Lines that hold no field named `name` do not change what `field` finds
/// after them.
proof fn lemma_field_skip(lines: Seq<Seq<char>>, name: Seq<char>, k: nat)
    requires
        k <= lines.len(),
        forall|j: int| 0 <= j < k ==> !names_field(#[trigger] lines[j], name),
    ensures
        field(lines, name) == field(lines.skip(k as int), name),
    decreases k,
{
    if k == 0 {
        assert(lines.skip(0) =~= lines);
    } else {
        let rest = lines.drop_first();
        assert forall|j: int| 0 <= j < k - 1 implies !names_field(#[trigger] rest[j], name) by {
            assert(rest[j] == lines[j + 1]);
        }
        lemma_field_skip(rest, name, (k - 1) as nat);
        assert(rest.skip(k - 1) =~= lines.skip(k as int));
    }
}

/// The range of the value of the first line of `chars` whose field is named
/// `name`.
fn find_field(chars: &Vec<char>, ranges: &Vec<(usize, usize)>, name: &str) -> (r: Option<
    (usize, usize),
>)
    requires
        forall|i: int| 0 <= i < ranges@.len() ==> within(#[trigger] ranges@[i], chars@.len()),
    ensures
        match field(pieces(chars@, ranges@), name@) {
            Some(value) => r matches Some(range) && within(range, chars@.len()) && chars@.subrange(
                range.0 as int,
                range.1 as int,
            ) == value,
            None => r is None,
        },
{
    let ghost all = pieces(chars@, ranges@);
    let mut i: usize = 0;
    while i < ranges.len()
        invariant
            i <= ranges.len(),
            all == pieces(chars@, ranges@),
            forall|j: int| 0 <= j < ranges@.len() ==> within(#[trigger] ranges@[j], chars@.len()),
            forall|j: int| 0 <= j < i ==> !names_field(#[trigger] all[j], name@),
        decreases ranges.len() - i,
    {
        let (lo, hi) = ranges[i];
        assert(within(ranges@[i as int], chars@.len()));
        let ghost line = chars@.subrange(lo as int, hi as int);
        assert(all[i as int] == line);
        let colon = find_char(chars, lo, hi, ':');
        if colon < hi {
            let (ka, kb) = trim_range(chars, lo, colon);
            let (va, vb) = trim_range(chars, colon + 1, hi);
            proof {
                assert(line.take(colon - lo) =~= chars@.subrange(lo as int, colon as int));
                assert(line.skip(colon - lo + 1) =~= chars@.subrange(colon + 1, hi as int));
            }
            if range_is(chars, ka, kb, name) {
                proof {
                    lemma_field_skip(all, name@, i as nat);
                    assert(all.skip(i as int)[0] == line);
                }
                return Some((va, vb));
            }
        }
        i += 1;
    }
    proof {
        lemma_field_skip(all, name@, all.len());
        assert(all.skip(all.len() as int) =~= Seq::<Seq<char>>::empty());
    }
    None
}

/// The version that a banner holds, or the first of release, commit hash and
/// commit date that it lacks. A field is lacking when no line names it, or
/// when the first line that names it gives no value.
pub open spec fn spec_version(text: Seq<char>) -> Result<VersionView, SandboxError> {
    let release = field(lines(text), "release"@);
    let commit_hash = field(lines(text), "commit-hash"@);
    let commit_date = field(lines(text), "commit-date"@);
    if !present(release) {
        Err(SandboxError::VersionReleaseMissing)
    } else if !present(commit_hash) {
        Err(SandboxError::VersionHashMissing)
    } else if !present(commit_date) {
        Err(SandboxError::VersionDateMissing)
    } else {
        Ok(
            VersionView {
                release: release->0,
                commit_hash: commit_hash->0,
                commit_date: commit_date->0,
            },
        )
    }
}

/// Reads a version banner: lines of the form `name: value`, of which the
/// first `release`, `commit-hash` and `commit-date` lines are taken. Lines
/// without a colon and fields of other names are passed over.
pub fn parse_version(text: &str) -> (r: Result<Version, SandboxError>)
    ensures
        match spec_version(text@) {
            Ok(version) => r matches Ok(v) && v@ == version,
            Err(e) => r matches Err(f) && f == e,
        },
{
    let chars = chars_of(text);
    let ranges = line_ranges(&chars);
    let release = match find_field(&chars, &ranges, "release") {
        Some(range) if range.0 < range.1 => text_of(&chars, range.0, range.1),
        _ => { return Err(SandboxError::VersionReleaseMissing); },
    };
    let commit_hash = match find_field(&chars, &ranges, "commit-hash") {
        Some(range) if range.0 < range.1 => text_of(&chars, range.0, range.1),
        _ => { return Err(SandboxError::VersionHashMissing); },
    };
    let commit_date = match find_field(&chars, &ranges, "commit-date") {
        Some(range) if range.0 < range.1 => text_of(&chars, range.0, range.1),
        _ => { return Err(SandboxError::VersionDateMissing); },
    };
    Ok(Version { release, commit_hash, commit_date })
}

/// What `serde_json` decodes a text to when it is read as a JSON object
/// whose values are all strings: the members as pairs of name and value, or
/// `None` where the text is rejected.
pub uninterp spec fn json_string_members(line: Seq<char>) -> Option<Seq<(Seq<char>, Seq<char>)>>;

/// The characters of decoded members.
pub open spec fn members_view(members: Seq<(String, String)>) -> Seq<(Seq<char>, Seq<char>)> {
    Seq::new(members.len(), |i: int| (members[i].0@, members[i].1@))
}

/// `serde_json::from_str` at the type `BTreeMap<String, String>`, with the
/// map's entries handed out as pairs: the call succeeds exactly where
/// `json_string_members` is defined, and the pairs are then those members.
#[verifier::external_body]
fn json_members(line: &str) -> (r: Result<Vec<(String, String)>, serde_json::Error>)
    ensures
        r is Ok <==> json_string_members(line@) is Some,
        r matches Ok(members) ==> members_view(members@) == json_string_members(line@)->0,
{
    let map = serde_json::from_str::<std::collections::BTreeMap<String, String>>(line)?;
    Ok(map.into_iter().collect())
}

/// `serde::de::Error::missing_field` for `serde_json::Error`: the error that
/// `serde_json` reports for an object that lacks the member `name`.
#[verifier::external_body]
fn missing_member(name: &'static str) -> serde_json::Error {
    serde::de::Error::missing_field(name)
}

/// The value of the first of `members` that is named `name`.
pub open spec fn member(members: Seq<(Seq<char>, Seq<char>)>, name: Seq<char>) -> Option<
    Seq<char>,
>
    decreases members.len(),
{
    if members.len() == 0 {
        None
    } else if members[0].0 == name {
        Some(members[0].1)
    } else {
        member(members.drop_first(), name)
    }
}

/// The record that `members` describe, or the first of `name`, `version`
/// and `id` that they lack. Members of other names are passed over.
pub open spec fn crate_of(members: Seq<(Seq<char>, Seq<char>)>) -> Result<
    CrateInformationView,
    Seq<char>,
> {
    let name = member(members, "name"@);
    let version = member(members, "version"@);
    let id = member(members, "id"@);
    if name is None {
        Err("name"@)
    } else if version is None {
        Err("version"@)
    } else if id is None {
        Err("id"@)
    } else {
        Ok(CrateInformationView { name: name->0, version: version->0, id: id->0 })
    }
}

/// Members of other names do not change what `member` finds after them.
proof fn lemma_member_skip(members: Seq<(Seq<char>, Seq<char>)>, name: Seq<char>, k: nat)
    requires
        k <= members.len(),
        forall|j: int| 0 <= j < k ==> (#[trigger] members[j]).0 != name,
    ensures
        member(members, name) == member(members.skip(k as int), name),
    decreases k,
{
    if k == 0 {
        assert(members.skip(0) =~= members);
    } else {
        let rest = members.drop_first();
        assert forall|j: int| 0 <= j < k - 1 implies (#[trigger] rest[j]).0 != name by {
            assert(rest[j] == members[j + 1]);
        }
        lemma_member_skip(rest, name, (k - 1) as nat);
        assert(rest.skip(k - 1) =~= members.skip(k as int));
    }
}

/// The value of the first member named `name`.
fn find_member(members: &Vec<(String, String)>, name: &str) -> (r: Option<String>)
    ensures
        match member(members_view(members@), name@) {
            Some(value) => r matches Some(found) && found@ == value,
            None => r is None,
        },
{
    let ghost all = members_view(members@);
    let mut i: usize = 0;
    while i < members.len()
        invariant
            i <= members.len(),
            all == members_view(members@),
            forall|j: int| 0 <= j < i ==> (#[trigger] all[j]).0 != name@,
        decreases members.len() - i,
    {
        assert(all[i as int] == (members@[i as int].0@, members@[i as int].1@));
        if same_text(members[i].0.as_str(), name) {
            proof {
                lemma_member_skip(all, name@, i as nat);
                assert(all.skip(i as int)[0] == all[i as int]);
            }
            return Some(members[i].1.clone());
        }
        i += 1;
    }
    proof {
        lemma_member_skip(all, name@, all.len());
        assert(all.skip(all.len() as int) =~= Seq::<(Seq<char>, Seq<char>)>::empty());
    }
    None
}

/// The record that decoded members describe: the values of the first
/// members named `name`, `version` and `id`. Where one of them is lacking,
/// the name of the first that is.
pub fn crate_from_members(members: &Vec<(String, String)>) -> (r: Result<
    CrateInformation,
    &'static str,
>)
    ensures
        match crate_of(members_view(members@)) {
            Ok(record) => r matches Ok(found) && found@ == record,
            Err(lacking) => r matches Err(name) && name@ == lacking,
        },
{
    let name = match find_member(members, "name") {
        Some(value) => value,
        None => { return Err("name"); },
    };
    let version = match find_member(members, "version") {
        Some(value) => value,
        None => { return Err("version"); },
    };
    let id = match find_member(members, "id") {
        Some(value) => value,
        None => { return Err("id"); },
    };
    Ok(CrateInformation { name, version, id })
}

/// The record that one line of a dependency list holds, if the line is a
/// JSON object of string members with a name, a version and an identifier.
pub open spec fn crate_of_line(line: Seq<char>) -> Option<CrateInformationView> {
    match json_string_members(line) {
        Some(members) => match crate_of(members) {
            Ok(record) => Some(record),
            Err(_) => None,
        },
        None => None,
    }
}

/// The lines of a dependency list that hold a record: those that are more
/// than blank characters.
pub open spec fn record_lines(lines: Seq<Seq<char>>) -> Seq<Seq<char>>
    decreases lines.len(),
{
    if lines.len() == 0 {
        Seq::<Seq<char>>::empty()
    } else if trimmed(lines.last()).len() == 0 {
        record_lines(lines.drop_last())
    } else {
        record_lines(lines.drop_last()).push(lines.last())
    }
}

/// The record lines of the first `i` lines are the first record lines of
/// all the lines.
proof fn lemma_record_lines_prefix(lines: Seq<Seq<char>>, i: int)
    requires
        0 <= i <= lines.len(),
    ensures
        record_lines(lines.take(i)).len() <= record_lines(lines).len(),
        forall|j: int|
            0 <= j < record_lines(lines.take(i)).len() ==> record_lines(lines)[j] == record_lines(
                lines.take(i),
            )[j],
    decreases lines.len(),
{
    if i == lines.len() {
        assert(lines.take(i) =~= lines);
    } else {
        assert(lines.drop_last().take(i) =~= lines.take(i));
        lemma_record_lines_prefix(lines.drop_last(), i);
    }
}

/// Whether `crates` are the records of the dependency list that `lines`
/// hold: one for each record line, in the order of the lines.
pub open spec fn is_crate_list(lines: Seq<Seq<char>>, crates: Seq<CrateInformation>) -> bool {
    &&& crates.len() > 0
    &&& crates.len() == record_lines(lines).len()
    &&& forall|i: int|
        0 <= i < crates.len() ==> crate_of_line(#[trigger] record_lines(lines)[i]) == Some(
            crates[i]@,
        )
}

/// Whether `e` is the failure of reading the dependency list that `lines`
/// hold: the list is missing, or one of its record lines holds no record.
pub open spec fn is_crate_list_failure(lines: Seq<Seq<char>>, e: SandboxError) -> bool {
    if record_lines(lines).len() == 0 {
        e is OutputMissing
    } else {
        &&& e is UnableToParseCrateInformation
        &&& exists|i: int|
            0 <= i < record_lines(lines).len() && crate_of_line(#[trigger] record_lines(lines)[i])
                is None
    }
}

/// Reads the lines `from..to` of `chars` as a dependency list.
fn read_records(chars: &Vec<char>, ranges: &Vec<(usize, usize)>, from: usize, to: usize) -> (r:
    Result<Vec<CrateInformation>, SandboxError>)
    requires
        from <= to <= ranges@.len(),
        forall|i: int| 0 <= i < ranges@.len() ==> within(#[trigger] ranges@[i], chars@.len()),
    ensures
        match r {
            Ok(crates) => is_crate_list(
                pieces(chars@, ranges@).subrange(from as int, to as int),
                crates@,
            ),
            Err(e) => is_crate_list_failure(
                pieces(chars@, ranges@).subrange(from as int, to as int),
                e,
            ),
        },
{
    let ghost all = pieces(chars@, ranges@).subrange(from as int, to as int);
    let mut crates: Vec<CrateInformation> = Vec::new();
    let mut i: usize = from;
    assert(all.take(0) =~= Seq::<Seq<char>>::empty());
    while i < to
        invariant
            from <= i <= to <= ranges@.len(),
            all == pieces(chars@, ranges@).subrange(from as int, to as int),
            forall|j: int| 0 <= j < ranges@.len() ==> within(#[trigger] ranges@[j], chars@.len()),
            crates@.len() == record_lines(all.take(i - from)).len(),
            forall|j: int|
                0 <= j < crates@.len() ==> crate_of_line(
                    #[trigger] record_lines(all.take(i - from))[j],
                ) == Some(crates@[j]@),
        decreases to - i,
    {
        let (lo, hi) = ranges[i];
        assert(within(ranges@[i as int], chars@.len()));
        let ghost line = chars@.subrange(lo as int, hi as int);
        let ghost before = all.take(i - from);
        let ghost next = all.take(i - from + 1);
        proof {
            assert(all[i - from] == line);
            assert(next.drop_last() =~= before);
            assert(next.last() == line);
        }
        let (a, b) = trim_range(chars, lo, hi);
        if a < b {
            let owned = text_of(chars, lo, hi);
            let ghost at = record_lines(before).len() as int;
            proof {
                assert(record_lines(next) == record_lines(before).push(line));
                lemma_record_lines_prefix(all, i - from + 1);
                assert(record_lines(all)[at] == line);
            }
            match json_members(owned.as_str()) {
                Ok(members) => match crate_from_members(&members) {
                    Ok(found) => {
                        crates.push(found);
                    },
                    Err(name) => {
                        assert(crate_of_line(record_lines(all)[at]) is None);
                        return Err(
                            SandboxError::UnableToParseCrateInformation(missing_member(name)),
                        );
                    },
                },
                Err(e) => {
                    assert(crate_of_line(record_lines(all)[at]) is None);
                    return Err(SandboxError::UnableToParseCrateInformation(e));
                },
            }
        }
        i += 1;
    }
    assert(all.take(to - from) =~= all);
    if crates.len() == 0 {
        Err(SandboxError::OutputMissing)
    } else {
        Ok(crates)
    }
}

/// Reads a dependency list: one JSON object per line, in the order of the
/// lines; blank lines are passed over. The text is the content of the list
/// alone. A text without any record line holds no list, which is
/// `OutputMissing`; a record line that does not decode to a record is
/// `UnableToParseCrateInformation`, with the decoder's failure.
pub fn parse_crate_list(text: &str) -> (r: Result<Vec<CrateInformation>, SandboxError>)
    ensures
        match r {
            Ok(crates) => is_crate_list(lines(text@), crates@),
            Err(e) => is_crate_list_failure(lines(text@), e),
        },
{
    let chars = chars_of(text);
    let ranges = line_ranges(&chars);
    assert(pieces(chars@, ranges@).subrange(0, ranges@.len() as int) =~= lines(text@));
    read_records(&chars, &ranges, 0, ranges.len())
}

/// Reads a version banner from captured bytes: the bytes are decoded
/// strictly, then read as `parse_version` reads text.
pub fn version_from_output(raw: Vec<u8>) -> (r: Result<Version, SandboxError>)
    ensures
        !valid_utf8(raw@) ==> (r matches Err(e) && e is OutputNotUtf8),
        valid_utf8(raw@) ==> match spec_version(decode_utf8(raw@)) {
            Ok(version) => r matches Ok(v) && v@ == version,
            Err(e) => r matches Err(f) && f == e,
        },
{
    match vec_to_str(raw) {
        Ok(text) => parse_version(text.as_str()),
        Err(e) => Err(e),
    }
}

/// The line that opens the dependency list in captured output.
pub open spec fn begin_marker() -> Seq<char> {
    "-----BEGIN CRATE INFORMATION-----"@
}

/// The line that closes the dependency list in captured output.
pub open spec fn end_marker() -> Seq<char> {
    "-----END CRATE INFORMATION-----"@
}

/// The index of the first of `lines` that is `marker`, blank characters
/// around it aside, or the number of lines if none is.
pub open spec fn first_marker(lines: Seq<Seq<char>>, marker: Seq<char>) -> nat
    decreases lines.len(),
{
    if lines.len() == 0 || trimmed(lines[0]) == marker {
        0
    } else {
        1 + first_marker(lines.drop_first(), marker)
    }
}

/// The dependency list within the lines of captured output: the lines
/// between the first line that is the begin marker and the first line after
/// it that is the end marker. Output without the one or the other holds no
/// list.
pub open spec fn crate_block(lines: Seq<Seq<char>>) -> Option<Seq<Seq<char>>> {
    let begin = first_marker(lines, begin_marker());
    if begin < lines.len() {
        let rest = lines.skip(begin as int + 1);
        let end = first_marker(rest, end_marker());
        if end < rest.len() {
            Some(rest.take(end as int))
        } else {
            None
        }
    } else {
        None
    }
}

proof fn lemma_first_marker(lines: Seq<Seq<char>>, marker: Seq<char>, k: nat)
    requires
        k <= lines.len(),
        forall|j: int| 0 <= j < k ==> trimmed(#[trigger] lines[j]) != marker,
        k == lines.len() || trimmed(lines[k as int]) == marker,
    ensures
        first_marker(lines, marker) == k,
    decreases k,
{
    if k > 0 {
        let rest = lines.drop_first();
        assert forall|j: int| 0 <= j < k - 1 implies trimmed(#[trigger] rest[j]) != marker by {
            assert(rest[j] == lines[j + 1]);
        }
        lemma_first_marker(rest, marker, (k - 1) as nat);
    }
}

/// The first line of `chars` at or after line `from` that is `marker`.
fn find_marker(chars: &Vec<char>, ranges: &Vec<(usize, usize)>, from: usize, marker: &str) -> (r:
    usize)
    requires
        from <= ranges@.len(),
        forall|i: int| 0 <= i < ranges@.len() ==> within(#[trigger] ranges@[i], chars@.len()),
    ensures
        from <= r <= ranges@.len(),
        r - from == first_marker(pieces(chars@, ranges@).skip(from as int), marker@),
{
    let ghost rest = pieces(chars@, ranges@).skip(from as int);
    let mut i: usize = from;
    while i < ranges.len()
        invariant
            from <= i <= ranges@.len(),
            rest == pieces(chars@, ranges@).skip(from as int),
            forall|j: int| 0 <= j < ranges@.len() ==> within(#[trigger] ranges@[j], chars@.len()),
            forall|j: int| 0 <= j < i - from ==> trimmed(#[trigger] rest[j]) != marker@,
        decreases ranges.len() - i,
    {
        let (lo, hi) = ranges[i];
        assert(within(ranges@[i as int], chars@.len()));
        assert(rest[i - from] == chars@.subrange(lo as int, hi as int));
        let (a, b) = trim_range(chars, lo, hi);
        if range_is(chars, a, b, marker) {
            proof {
                lemma_first_marker(rest, marker@, (i - from) as nat);
            }
            return i;
        }
        i += 1;
    }
    proof {
        lemma_first_marker(rest, marker@, rest.len());
    }
    i
}

/// The lines of `chars` that make up the dependency list, as a range of
/// line numbers.
fn find_block(chars: &Vec<char>, ranges: &Vec<(usize, usize)>) -> (r: Option<(usize, usize)>)
    requires
        forall|i: int| 0 <= i < ranges@.len() ==> within(#[trigger] ranges@[i], chars@.len()),
    ensures
        match crate_block(pieces(chars@, ranges@)) {
            Some(block) => r matches Some(range) && range.0 <= range.1 <= ranges@.len() && pieces(
                chars@,
                ranges@,
            ).subrange(range.0 as int, range.1 as int) == block,
            None => r is None,
        },
{
    let ghost all = pieces(chars@, ranges@);
    assert(all.skip(0) =~= all);
    let begin = find_marker(chars, ranges, 0, "-----BEGIN CRATE INFORMATION-----");
    if begin == ranges.len() {
        return None;
    }
    let end = find_marker(chars, ranges, begin + 1, "-----END CRATE INFORMATION-----");
    if end == ranges.len() {
        return None;
    }
    assert(all.skip(begin + 1).take(end - begin - 1) =~= all.subrange(begin + 1, end as int));
    Some((begin + 1, end))
}

/// Cuts the dependency list out of captured output: the lines between the
/// line `-----BEGIN CRATE INFORMATION-----` and the next line
/// `-----END CRATE INFORMATION-----`, or `None` where the output lacks one
/// of the two.
pub fn crate_block_of(output: &str) -> (r: Option<Vec<String>>)
    ensures
        match crate_block(lines(output@)) {
            Some(block) => r matches Some(found) && texts(found@) == block,
            None => r is None,
        },
{
    let chars = chars_of(output);
    let ranges = line_ranges(&chars);
    match find_block(&chars, &ranges) {
        None => None,
        Some((from, to)) => {
            let ghost block = lines(output@).subrange(from as int, to as int);
            let mut found: Vec<String> = Vec::new();
            let mut i: usize = from;
            while i < to
                invariant
                    from <= i <= to <= ranges@.len(),
                    block == pieces(chars@, ranges@).subrange(from as int, to as int),
                    forall|j: int|
                        0 <= j < ranges@.len() ==> within(#[trigger] ranges@[j], chars@.len()),
                    found@.len() == i - from,
                    forall|j: int| 0 <= j < found@.len() ==> found@[j]@ == block[j],
                decreases to - i,
            {
                let (lo, hi) = ranges[i];
                assert(within(ranges@[i as int], chars@.len()));
                assert(block[i - from] == chars@.subrange(lo as int, hi as int));
                found.push(text_of(&chars, lo, hi));
                i += 1;
            }
            assert(texts(found@) =~= block);
            Some(found)
        },
    }
}

/// Reads a dependency list from captured bytes: the bytes are decoded
/// strictly, the list is cut out between its two marker lines, and its
/// lines are read as `parse_crate_list` reads them. Output without the
/// marked list is `OutputMissing`.
pub fn crates_from_output(raw: Vec<u8>) -> (r: Result<Vec<CrateInformation>, SandboxError>)
    ensures
        !valid_utf8(raw@) ==> (r matches Err(e) && e is OutputNotUtf8),
        valid_utf8(raw@) ==> match crate_block(lines(decode_utf8(raw@))) {
            Some(block) => match r {
                Ok(crates) => is_crate_list(block, crates@),
                Err(e) => is_crate_list_failure(block, e),
            },
            None => r matches Err(e) && e is OutputMissing,
        },
{
    match vec_to_str(raw) {
        Ok(text) => {
            let chars = chars_of(text.as_str());
            let ranges = line_ranges(&chars);
            match find_block(&chars, &ranges) {
                Some((from, to)) => read_records(&chars, &ranges, from, to),
                None => Err(SandboxError::OutputMissing),
            }
        },
        Err(e) => Err(e),
    }
}

} // verus!
