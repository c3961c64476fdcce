//! Building one record from a data row and the header, and adding it to the
//! document.
//!
//! Columns are assigned from left to right. A cell without text becomes
//! null, any other cell becomes a string with exactly that text. Where the
//! row has fewer cells than the header has columns, the columns beyond the
//! row are left out: the record is not padded. Where the header names a
//! column twice, the later cell overwrites the earlier one and the key
//! keeps the place of its first occurrence.

use vstd::prelude::*;
use crate::csv_reader;
use crate::csv_reader::record_fields;
use crate::json_value;
use crate::json_value::{has_key, json_view, with_member, Json};

verus! {

/// The value that a cell with the text `content` becomes.
pub open spec fn cell(content: Seq<char>) -> Json {
    if content.len() == 0 {
        Json::Null
    } else {
        Json::Text(content)
    }
}

/// The number of columns that a row contributes: those that have both a
/// header and a cell.
pub open spec fn columns_used(headers: Seq<Seq<char>>, row: Seq<Seq<char>>) -> nat {
    if headers.len() <= row.len() {
        headers.len()
    } else {
        row.len()
    }
}

/// The members of a record once its first `n` columns have been assigned,
/// from left to right.
pub open spec fn members_upto(headers: Seq<Seq<char>>, row: Seq<Seq<char>>, n: nat) -> Seq<
    (Seq<char>, Json),
>
    decreases n,
{
    if n == 0 {
        Seq::empty()
    } else {
        with_member(
            members_upto(headers, row, (n - 1) as nat),
            headers[n - 1],
            cell(row[n - 1]),
        )
    }
}

/// The record that `row` gives under `headers`.
pub open spec fn record_of(headers: Seq<Seq<char>>, row: Seq<Seq<char>>) -> Json {
    Json::Object(members_upto(headers, row, columns_used(headers, row)))
}

/// The keys of `members`, in order.
pub open spec fn keys_of(members: Seq<(Seq<char>, Json)>) -> Seq<Seq<char>> {
    members.map_values(|member: (Seq<char>, Json)| member.0)
}

/// A place at which `members` has the key `key`.
pub open spec fn place_of(members: Seq<(Seq<char>, Json)>, key: Seq<char>) -> int
    recommends
        has_key(members, key),
{
    choose|i: int| 0 <= i < members.len() && (#[trigger] members[i]).0 == key
}

/// The value that `members` holds under `key`.
pub open spec fn value_of(members: Seq<(Seq<char>, Json)>, key: Seq<char>) -> Json
    recommends
        has_key(members, key),
{
    members[place_of(members, key)].1
}

/// Setting a member leaves the keys as they are where the key is among
/// them, and adds the key at the end where it is not.
pub proof fn lemma_with_member_keys(members: Seq<(Seq<char>, Json)>, key: Seq<char>, value: Json)
    ensures
        keys_of(with_member(members, key, value)) == if has_key(members, key) {
            keys_of(members)
        } else {
            keys_of(members).push(key)
        },
        has_key(with_member(members, key, value), key),
{
    let after = with_member(members, key, value);
    if has_key(members, key) {
        assert(keys_of(after) =~= keys_of(members));
        let i = place_of(members, key);
        assert(after[i].0 == key);
    } else {
        assert(keys_of(after) =~= keys_of(members).push(key));
        assert(after[members.len() as int].0 == key);
    }
}

/// Among members with distinct keys, the member at `at` is the one that
/// `value_of` finds under its key.
pub proof fn lemma_value_of_at(members: Seq<(Seq<char>, Json)>, at: int)
    requires
        keys_of(members).no_duplicates(),
        0 <= at < members.len(),
    ensures
        value_of(members, members[at].0) == members[at].1,
{
    let key = members[at].0;
    assert(has_key(members, key));
    let found = place_of(members, key);
    assert(keys_of(members).len() == members.len());
    assert(keys_of(members)[found] == members[found].0);
    assert(keys_of(members)[at] == members[at].0);
}

/// After a member is set, its key holds the new value and every other key
/// holds what it held before.
pub proof fn lemma_with_member_values(
    members: Seq<(Seq<char>, Json)>,
    key: Seq<char>,
    value: Json,
    other: Seq<char>,
)
    requires
        keys_of(members).no_duplicates(),
    ensures
        keys_of(with_member(members, key, value)).no_duplicates(),
        value_of(with_member(members, key, value), key) == value,
        other != key && has_key(members, other) ==> has_key(
            with_member(members, key, value),
            other,
        ) && value_of(with_member(members, key, value), other) == value_of(members, other),
{
    let after = with_member(members, key, value);
    let keys = keys_of(after);
    lemma_with_member_keys(members, key, value);
    assert(keys.no_duplicates()) by {
        if !has_key(members, key) {
            assert forall|i: int, j: int|
                0 <= i < keys.len() && 0 <= j < keys.len() && i != j implies keys[i]
                != keys[j] by {
                if i < members.len() && j < members.len() {
                    assert(keys_of(members)[i] != keys_of(members)[j]);
                } else if i < members.len() {
                    assert(members[i].0 != key);
                } else {
                    assert(members[j].0 != key);
                }
            }
        }
    }
    let at = place_of(after, key);
    lemma_value_of_at(after, at);
    if other != key && has_key(members, other) {
        let was = place_of(members, other);
        assert(after[was] == members[was]);
        lemma_value_of_at(after, was);
        lemma_value_of_at(members, was);
        assert(has_key(after, other));
    }
}

/// The keys of a record: no key stands twice, every key is the name of one
/// of the columns that were assigned, every such name is a key, and there
/// are no more keys than assigned columns.
pub proof fn lemma_record_keys(headers: Seq<Seq<char>>, row: Seq<Seq<char>>, n: nat)
    ensures
        keys_of(members_upto(headers, row, n)).no_duplicates(),
        members_upto(headers, row, n).len() <= n,
        forall|i: int| 0 <= i < n ==> has_key(members_upto(headers, row, n), #[trigger] headers[i]),
        forall|key: Seq<char>| #[trigger]
            has_key(members_upto(headers, row, n), key) ==> exists|i: int|
                0 <= i < n && #[trigger] headers[i] == key,
    decreases n,
{
    let members = members_upto(headers, row, n);
    if n == 0 {
    } else {
        let before = members_upto(headers, row, (n - 1) as nat);
        let key = headers[n - 1];
        let value = cell(row[n - 1]);
        lemma_record_keys(headers, row, (n - 1) as nat);
        lemma_with_member_keys(before, key, value);
        lemma_with_member_values(before, key, value, key);
        assert(keys_of(members).len() == members.len());
        assert(keys_of(before).len() == before.len());
        assert forall|i: int| 0 <= i < n implies has_key(members, #[trigger] headers[i]) by {
            if i < n - 1 {
                assert(has_key(before, headers[i]));
                if headers[i] != key {
                    lemma_with_member_values(before, key, value, headers[i]);
                }
            }
        }
        assert forall|name: Seq<char>| #[trigger] has_key(members, name) implies exists|i: int|
            0 <= i < n && #[trigger] headers[i] == name by {
            let at = place_of(members, name);
            if name != key {
                assert(keys_of(members)[at] == name);
                if has_key(before, key) {
                    assert(keys_of(before)[at] == name);
                    assert(before[at].0 == name);
                } else {
                    assert(at < before.len());
                    assert(keys_of(before)[at] == name);
                    assert(before[at].0 == name);
                }
                assert(has_key(before, name));
                let i = choose|i: int| 0 <= i < n - 1 && #[trigger] headers[i] == name;
                assert(0 <= i < n && headers[i] == name);
            } else {
                assert(headers[n - 1] == name);
            }
        }
    }
}

/// Where the assigned columns have distinct names, the keys of the record
/// are exactly those names, in the order of the header.
pub proof fn lemma_record_keys_in_header_order(
    headers: Seq<Seq<char>>,
    row: Seq<Seq<char>>,
    n: nat,
)
    requires
        n <= headers.len(),
        headers.take(n as int).no_duplicates(),
    ensures
        keys_of(members_upto(headers, row, n)) == headers.take(n as int),
    decreases n,
{
    if n == 0 {
        assert(keys_of(members_upto(headers, row, n)) =~= headers.take(n as int));
    } else {
        let before = members_upto(headers, row, (n - 1) as nat);
        let key = headers[n - 1];
        let shorter = headers.take(n - 1);
        let longer = headers.take(n as int);
        assert(shorter.no_duplicates()) by {
            assert forall|i: int, j: int|
                0 <= i < shorter.len() && 0 <= j < shorter.len() && i != j implies shorter[i]
                != shorter[j] by {
                assert(longer[i] != longer[j]);
            }
        }
        lemma_record_keys_in_header_order(headers, row, (n - 1) as nat);
        lemma_record_keys(headers, row, (n - 1) as nat);
        lemma_with_member_keys(before, key, cell(row[n - 1]));
        if has_key(before, key) {
            let i = choose|i: int| 0 <= i < n - 1 && #[trigger] headers[i] == key;
            assert(longer[i] == longer[n - 1]);
        }
        assert(shorter.push(key) =~= longer);
    }
}

/// The value of a column: the record holds, under the name of an assigned
/// column, the value of that column's cell, unless a later assigned column
/// has the same name (the later one then wins).
pub proof fn lemma_record_value(headers: Seq<Seq<char>>, row: Seq<Seq<char>>, n: nat, column: int)
    requires
        0 <= column < n,
        forall|later: int| column < later < n ==> headers[later] != headers[column],
    ensures
        has_key(members_upto(headers, row, n), headers[column]),
        value_of(members_upto(headers, row, n), headers[column]) == cell(row[column]),
    decreases n,
{
    let before = members_upto(headers, row, (n - 1) as nat);
    let key = headers[n - 1];
    let value = cell(row[n - 1]);
    lemma_record_keys(headers, row, n);
    lemma_record_keys(headers, row, (n - 1) as nat);
    if column == n - 1 {
        lemma_with_member_values(before, key, value, key);
    } else {
        lemma_record_value(headers, row, (n - 1) as nat, column);
        lemma_with_member_values(before, key, value, headers[column]);
    }
}

/// A cell without text becomes null and any other cell becomes a string
/// with exactly the text of the cell.
pub proof fn lemma_cell(content: Seq<char>)
    ensures
        content.len() == 0 <==> cell(content) == Json::Null,
        content.len() > 0 <==> cell(content) == Json::Text(content),
{
}

/// A row that is shorter than the header gives a record of the first
/// columns only, as many as the row has cells: the columns beyond the row
/// are left out, not set to null.
pub proof fn lemma_short_row(headers: Seq<Seq<char>>, row: Seq<Seq<char>>)
    requires
        row.len() < headers.len(),
    ensures
        record_of(headers, row) == Json::Object(members_upto(headers, row, row.len())),
        members_upto(headers, row, row.len()).len() <= row.len(),
        forall|key: Seq<char>| #[trigger]
            has_key(members_upto(headers, row, row.len()), key) ==> exists|i: int|
                0 <= i < row.len() && #[trigger] headers[i] == key,
{
    lemma_record_keys(headers, row, row.len());
}

/// Builds the record of `row` under `headers`: an object that holds, for
/// every column that has both a name and a cell, the value of the cell
/// under the name of the column.
pub fn record_from_row(row: &csv::StringRecord, headers: &csv::StringRecord) -> (record:
    json::JsonValue)
    ensures
        json_view(record) == record_of(record_fields(*headers), record_fields(*row)),
{
    let mut element = json_value::new_object();
    let width: usize = csv_reader::record_len(headers);
    let cells: usize = csv_reader::record_len(row);
    let mut index: usize = 0;
    while index < width && index < cells
        invariant
            width == record_fields(*headers).len(),
            cells == record_fields(*row).len(),
            index <= width,
            index <= cells,
            json_view(element) == Json::Object(
                members_upto(record_fields(*headers), record_fields(*row), index as nat),
            ),
        decreases width - index,
    {
        let header = csv_reader::record_field(headers, index);
        let value = csv_reader::record_field(row, index);
        if value.is_empty() {
            json_value::set_member(&mut element, header, json_value::null());
        } else {
            json_value::set_member(&mut element, header, json_value::text(value));
        }
        index = index + 1;
    }
    element
}

/// Builds the record of `record` under `headers` and adds it at the end of
/// the document `json`, which must be an array. What the document held
/// before stays as it was.
pub fn json_with_record_row(
    json: json::JsonValue,
    record: csv::StringRecord,
    headers: &csv::StringRecord,
) -> (document: json::JsonValue)
    requires
        json_view(json) is List,
    ensures
        json_view(document) == Json::List(
            json_view(json)->List_0.push(
                record_of(record_fields(*headers), record_fields(record)),
            ),
        ),
{
    let mut json = json;
    let element = record_from_row(&record, headers);
    match json_value::push(&mut json, element) {
        Ok(()) => json,
        Err(_) => json,
    }
}

} // verus!
