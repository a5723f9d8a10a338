//! The names of the tags that problems carry.

use crate::errors::{ErrorView, ServiceError, ServiceResult};
use crate::models::problem_tags::ProblemTag;
use crate::text::texts;
use std::collections::HashMap;
use vstd::prelude::*;

verus! {

/// The names of `tags` by tag id. Where two tags share an id, the later one
/// counts.
pub open spec fn tag_table(tags: Seq<ProblemTag>) -> Map<i32, Seq<char>>
    decreases tags.len(),
{
    if tags.len() == 0 {
        Map::empty()
    } else {
        tag_table(tags.drop_last()).insert(tags.last().id, tags.last().name@)
    }
}

/// The names that `table` holds for `tag_ids`, in the order of the ids. An
/// id without a name is passed over.
pub open spec fn names_of(tag_ids: Seq<i32>, table: Map<i32, Seq<char>>) -> Seq<Seq<char>>
    decreases tag_ids.len(),
{
    if tag_ids.len() == 0 {
        Seq::empty()
    } else {
        let rest = names_of(tag_ids.drop_last(), table);
        if table.contains_key(tag_ids.last()) {
            rest.push(table[tag_ids.last()])
        } else {
            rest
        }
    }
}

/// The characters of each name of a table.
pub open spec fn table_view(names: Map<i32, String>) -> Map<i32, Seq<char>> {
    names.map_values(|name: String| name@)
}

/// The table of tag names made afresh from the rows `tags`.
pub fn apply_changes(tags: &Vec<ProblemTag>) -> (names: HashMap<i32, String>)
    ensures
        table_view(names@) == tag_table(tags@),
{
    broadcast use vstd::std_specs::hash::group_hash_axioms;

    let mut names: HashMap<i32, String> = HashMap::new();
    assert(table_view(names@) =~= tag_table(tags@.take(0)));
    let mut i: usize = 0;
    while i < tags.len()
        invariant
            i <= tags.len(),
            table_view(names@) == tag_table(tags@.take(i as int)),
        decreases tags.len() - i,
    {
        let ghost before = names@;
        assert(tags@.take(i + 1).drop_last() =~= tags@.take(i as int));
        names.insert(tags[i].id, tags[i].name.clone());
        assert(table_view(names@) =~= table_view(before).insert(tags[i as int].id, tags[i as int].name@));
        i += 1;
    }
    assert(tags@.take(i as int) =~= tags@);
    names
}

/// The names of the tags `tag_ids`, in the order of the ids. An id that
/// `names` do not know is passed over.
pub fn tag_names(tag_ids: &Vec<i32>, names: &HashMap<i32, String>) -> (found: Vec<String>)
    ensures
        texts(found@) == names_of(tag_ids@, table_view(names@)),
{
    broadcast use vstd::std_specs::hash::group_hash_axioms;

    let ghost table = table_view(names@);
    let mut found: Vec<String> = Vec::new();
    assert(texts(found@) =~= names_of(tag_ids@.take(0), table));
    let mut i: usize = 0;
    while i < tag_ids.len()
        invariant
            i <= tag_ids.len(),
            table == table_view(names@),
            texts(found@) == names_of(tag_ids@.take(i as int), table),
        decreases tag_ids.len() - i,
    {
        let ghost before = found@;
        let id = tag_ids[i];
        assert(tag_ids@.take(i + 1).drop_last() =~= tag_ids@.take(i as int));
        assert(table.contains_key(id) == names@.contains_key(id));
        match names.get(&id) {
            Some(name) => {
                assert(table[id] == name@);
                found.push(name.clone());
                assert(texts(found@) =~= texts(before).push(name@));
            },
            None => {},
        }
        i += 1;
    }
    assert(tag_ids@.take(i as int) =~= tag_ids@);
    found
}

/// Why a tag that problems carry cannot be deleted.
pub open spec fn tag_in_use() -> ErrorView {
    ErrorView::BadRequest("标签已和题目关联，无法删除"@)
}

/// Whether a tag may be deleted: only while none of the problems carries it.
/// `tagged_problems` is the number of problems that do.
pub fn delete(tagged_problems: i64) -> (res: ServiceResult<()>)
    ensures
        res is Ok <==> tagged_problems <= 0,
        res matches Err(e) ==> e@ == tag_in_use(),
{
    if tagged_problems > 0 {
        return Err(ServiceError::bad_request("标签已和题目关联，无法删除"));
    }
    Ok(())
}

} // verus!
