//! The path-addressed tree builder: each body fragment names a place in the
//! document by a path of accessors and puts a value there; the fragments of
//! a request are folded, in their order, into one JSON document.

use vstd::prelude::*;
use vstd::slice::slice_subrange;
use crate::grammar::Fragment;
use crate::json::{
    Json, JsonValue, distinct_keys, error_text, items_view, json_text, members_view,
    lemma_items_view, lemma_items_view_pointwise, parse_raw, raw_json, to_text,
    lemma_members_view, lemma_members_view_pointwise,
};
use crate::parser::{BodyValue, fragments_view};

verus! {

/// One step of a path into the document.
#[derive(Debug, PartialEq)]
pub enum PathAccess {
    /// The member of an object with this key.
    ObjectKey(String),
    /// The item of an array at this position.
    ArrayIndex(u32),
    /// A new item behind the last one of an array.
    ArrayEnd,
}

/// The mathematical model of a [`PathAccess`].
pub ghost enum PathStep {
    ObjectKey(Seq<char>),
    ArrayIndex(u32),
    ArrayEnd,
}

impl View for PathAccess {
    type V = PathStep;

    open spec fn view(&self) -> PathStep {
        match self {
            PathAccess::ObjectKey(key) => PathStep::ObjectKey(key@),
            PathAccess::ArrayIndex(index) => PathStep::ArrayIndex(*index),
            PathAccess::ArrayEnd => PathStep::ArrayEnd,
        }
    }
}

/// The models of the steps of a path, one for one.
pub open spec fn path_view(path: Seq<PathAccess>) -> Seq<PathStep> {
    Seq::new(path.len(), |i: int| path[i]@)
}

/// A step of a path met a node of the wrong kind.
#[derive(Debug, Clone, Copy, PartialEq, Eq)]
pub enum PathError {
    /// An object key was applied to a node that is neither null nor an object.
    ExpectObject,
    /// An array index or an append was applied to a node that is neither null
    /// nor an array.
    ExpectArray,
}

impl PathError {
    /// The error in words: the kind of node that the step expected.
    pub open spec fn text(self) -> Seq<char> {
        match self {
            PathError::ExpectObject => "expect object root"@,
            PathError::ExpectArray => "expect array root"@,
        }
    }

    /// The error in words: the kind of node that the step expected.
    pub fn message(&self) -> (text: String)
        ensures
            text@ == self.text(),
    {
        match self {
            PathError::ExpectObject => "expect object root".to_owned(),
            PathError::ExpectArray => "expect array root".to_owned(),
        }
    }
}

/// The members that a node offers to an object key: none yet for null,
/// its own for an object, and no answer for any other node.
pub open spec fn as_members(node: Json) -> Option<Seq<(Seq<char>, Json)>> {
    match node {
        Json::Null => Some(Seq::empty()),
        Json::Object(members) => Some(members),
        _ => None,
    }
}

/// The items that a node offers to an array step: none yet for null, its own
/// for an array, and no answer for any other node.
pub open spec fn as_items(node: Json) -> Option<Seq<Json>> {
    match node {
        Json::Null => Some(Seq::empty()),
        Json::Array(items) => Some(items),
        _ => None,
    }
}

/// The position of the first member with the given key, or the number of
/// members where none has it.
pub open spec fn member_index(members: Seq<(Seq<char>, Json)>, key: Seq<char>) -> int
    decreases members.len(),
{
    if members.len() == 0 {
        0
    } else if members[0].0 == key {
        0
    } else {
        1 + member_index(members.drop_first(), key)
    }
}

/// The items followed by as many nulls as it takes to reach the given length.
pub open spec fn pad_nulls(items: Seq<Json>, len: int) -> Seq<Json> {
    if items.len() >= len {
        items
    } else {
        items + Seq::new((len - items.len()) as nat, |i: int| Json::Null)
    }
}

/// The document that results from putting `value` at `path` below `node`,
/// or the conflict that stops it.
///
/// With the path exhausted the value replaces the node. Otherwise the first
/// step picks a child, creating it as null where it is missing (a null node
/// counts as an empty container of the kind that the step asks for), and the
/// rest of the path is followed from that child.
pub open spec fn put(node: Json, path: Seq<PathStep>, value: Json) -> Result<Json, PathError>
    decreases path.len(),
{
    if path.len() == 0 {
        Ok(value)
    } else {
        let rest = path.drop_first();
        match path[0] {
            PathStep::ObjectKey(key) => match as_members(node) {
                None => Err(PathError::ExpectObject),
                Some(found) => {
                    let at = member_index(found, key);
                    let members = if at < found.len() {
                        found
                    } else {
                        found.push((key, Json::Null))
                    };
                    match put(members[at].1, rest, value) {
                        Ok(child) => Ok(Json::Object(members.update(at, (members[at].0, child)))),
                        Err(conflict) => Err(conflict),
                    }
                },
            },
            PathStep::ArrayIndex(index) => match as_items(node) {
                None => Err(PathError::ExpectArray),
                Some(found) => {
                    let items = pad_nulls(found, index + 1);
                    match put(items[index as int], rest, value) {
                        Ok(child) => Ok(Json::Array(items.update(index as int, child))),
                        Err(conflict) => Err(conflict),
                    }
                },
            },
            PathStep::ArrayEnd => match as_items(node) {
                None => Err(PathError::ExpectArray),
                Some(found) => match put(Json::Null, rest, value) {
                    Ok(child) => Ok(Json::Array(found.push(child))),
                    Err(conflict) => Err(conflict),
                },
            },
        }
    }
}

/// Below a null node every path can be laid out: no step finds a node of the
/// wrong kind.
pub proof fn lemma_put_below_null(path: Seq<PathStep>, value: Json)
    ensures
        put(Json::Null, path, value) is Ok,
    decreases path.len(),
{
    if path.len() > 0 {
        lemma_put_below_null(path.drop_first(), value);
        match path[0] {
            PathStep::ObjectKey(key) => {
                let members = Seq::<(Seq<char>, Json)>::empty().push((key, Json::Null));
                assert(member_index(Seq::<(Seq<char>, Json)>::empty(), key) == 0);
                assert(members[0].1 == Json::Null);
            },
            PathStep::ArrayIndex(index) => {
                let items = pad_nulls(Seq::<Json>::empty(), index + 1);
                assert(items[index as int] == Json::Null);
            },
            PathStep::ArrayEnd => {},
        }
    }
}

/// `member_index` is a position of the sequence or its length; no member
/// before it has the key, and the member at it, where there is one, has it.
pub proof fn lemma_member_index(members: Seq<(Seq<char>, Json)>, key: Seq<char>)
    ensures
        0 <= member_index(members, key) <= members.len(),
        forall|i: int| 0 <= i < member_index(members, key) ==> (#[trigger] members[i]).0 != key,
        member_index(members, key) < members.len() ==> members[member_index(members, key)].0
            == key,
    decreases members.len(),
{
    if members.len() > 0 && members[0].0 != key {
        let tail = members.drop_first();
        lemma_member_index(tail, key);
        assert forall|i: int| 0 <= i < member_index(members, key) implies (#[trigger] members[i]).0
            != key by {
            if i > 0 {
                assert(members[i] == tail[i - 1]);
            }
        }
    }
}

/// A position that holds the key, with no member before it that holds it
/// too, is the `member_index` of the key.
pub proof fn lemma_member_index_is(members: Seq<(Seq<char>, Json)>, key: Seq<char>, at: int)
    requires
        0 <= at < members.len(),
        members[at].0 == key,
        forall|i: int| 0 <= i < at ==> (#[trigger] members[i]).0 != key,
    ensures
        member_index(members, key) == at,
    decreases at,
{
    if at > 0 {
        let tail = members.drop_first();
        assert(members[0].0 != key);
        assert forall|i: int| 0 <= i < at - 1 implies (#[trigger] tail[i]).0 != key by {
            assert(tail[i] == members[i + 1]);
        }
        lemma_member_index_is(tail, key, at - 1);
    }
}

/// Whether no step of the path is an append marker.
pub open spec fn no_append(path: Seq<PathStep>) -> bool {
    forall|i: int| 0 <= i < path.len() ==> #[trigger] path[i] != PathStep::ArrayEnd
}

/// The last write wins: where a value has been put at a path, putting
/// another value at the same path gives the document that putting only the
/// other value would have given. This holds unless the path appends: an
/// append marker makes a new item each time it is followed.
pub proof fn lemma_put_overwrites(node: Json, path: Seq<PathStep>, first: Json, second: Json)
    requires
        no_append(path),
        put(node, path, first) is Ok,
    ensures
        put(put(node, path, first).unwrap(), path, second) == put(node, path, second),
        put(node, path, second) is Ok,
    decreases path.len(),
{
    if path.len() > 0 {
        let rest = path.drop_first();
        assert(no_append(rest)) by {
            assert forall|i: int| 0 <= i < rest.len() implies #[trigger] rest[i]
                != PathStep::ArrayEnd by {
                assert(rest[i] == path[i + 1]);
            }
        }
        match path[0] {
            PathStep::ObjectKey(key) => {
                let found = as_members(node).unwrap();
                lemma_member_index(found, key);
                let at = member_index(found, key);
                let members = if at < found.len() {
                    found
                } else {
                    found.push((key, Json::Null))
                };
                let child = put(members[at].1, rest, first).unwrap();
                let after = members.update(at, (members[at].0, child));
                lemma_put_overwrites(members[at].1, rest, first, second);
                assert forall|i: int| 0 <= i < at implies (#[trigger] after[i]).0 != key by {
                    assert(after[i] == members[i]);
                    assert(members[i] == found[i]);
                }
                lemma_member_index_is(after, key, at);
                let last = put(members[at].1, rest, second).unwrap();
                assert(after.update(at, (after[at].0, last)) =~= members.update(
                    at,
                    (members[at].0, last),
                ));
            },
            PathStep::ArrayIndex(index) => {
                let found = as_items(node).unwrap();
                let items = pad_nulls(found, index + 1);
                let child = put(items[index as int], rest, first).unwrap();
                let after = items.update(index as int, child);
                lemma_put_overwrites(items[index as int], rest, first, second);
                assert(pad_nulls(after, index + 1) == after);
                let last = put(items[index as int], rest, second).unwrap();
                assert(after.update(index as int, last) =~= items.update(index as int, last));
            },
            PathStep::ArrayEnd => {
                assert(path[0] != PathStep::ArrayEnd);
            },
        }
    }
}

/// Putting a value at a path twice gives the same document as putting it
/// once, unless the path appends.
pub proof fn lemma_put_twice(node: Json, path: Seq<PathStep>, value: Json)
    requires
        no_append(path),
        put(node, path, value) is Ok,
    ensures
        put(put(node, path, value).unwrap(), path, value) == put(node, path, value),
{
    lemma_put_overwrites(node, path, value, value);
}

/// The node that a path leads to: the member with the key, the item at the
/// index, and for an append marker the last item. Nothing where a step finds
/// no such child.
pub open spec fn value_at(node: Json, path: Seq<PathStep>) -> Option<Json>
    decreases path.len(),
{
    if path.len() == 0 {
        Some(node)
    } else {
        match (path[0], node) {
            (PathStep::ObjectKey(key), Json::Object(members)) => if member_index(members, key)
                < members.len() {
                value_at(members[member_index(members, key)].1, path.drop_first())
            } else {
                None
            },
            (PathStep::ArrayIndex(index), Json::Array(items)) => if index < items.len() {
                value_at(items[index as int], path.drop_first())
            } else {
                None
            },
            (PathStep::ArrayEnd, Json::Array(items)) => if items.len() > 0 {
                value_at(items.last(), path.drop_first())
            } else {
                None
            },
            _ => None,
        }
    }
}

/// A value that has been put at a path is what the path leads to.
pub proof fn lemma_put_then_value_at(node: Json, path: Seq<PathStep>, value: Json)
    requires
        put(node, path, value) is Ok,
    ensures
        value_at(put(node, path, value).unwrap(), path) == Some(value),
    decreases path.len(),
{
    if path.len() > 0 {
        let rest = path.drop_first();
        match path[0] {
            PathStep::ObjectKey(key) => {
                let found = as_members(node).unwrap();
                lemma_member_index(found, key);
                let at = member_index(found, key);
                let members = if at < found.len() {
                    found
                } else {
                    found.push((key, Json::Null))
                };
                let child = put(members[at].1, rest, value).unwrap();
                let after = members.update(at, (members[at].0, child));
                lemma_put_then_value_at(members[at].1, rest, value);
                assert forall|i: int| 0 <= i < at implies (#[trigger] after[i]).0 != key by {
                    assert(after[i] == members[i]);
                    assert(members[i] == found[i]);
                }
                lemma_member_index_is(after, key, at);
            },
            PathStep::ArrayIndex(index) => {
                let found = as_items(node).unwrap();
                let items = pad_nulls(found, index + 1);
                lemma_put_then_value_at(items[index as int], rest, value);
            },
            PathStep::ArrayEnd => {
                lemma_put_then_value_at(Json::Null, rest, value);
            },
        }
    }
}

/// Putting a document without repeated keys into a document without
/// repeated keys gives a document without repeated keys.
pub proof fn lemma_put_wf(node: Json, path: Seq<PathStep>, value: Json)
    requires
        node.wf(),
        value.wf(),
    ensures
        put(node, path, value) matches Ok(tree) ==> tree.wf(),
    decreases path.len(),
{
    if path.len() > 0 {
        let rest = path.drop_first();
        match path[0] {
            PathStep::ObjectKey(key) => {
                if let Some(found) = as_members(node) {
                    lemma_member_index(found, key);
                    let at = member_index(found, key);
                    let members = if at < found.len() {
                        found
                    } else {
                        found.push((key, Json::Null))
                    };
                    assert(distinct_keys(members));
                    assert(members[at].1.wf());
                    lemma_put_wf(members[at].1, rest, value);
                    if let Ok(child) = put(members[at].1, rest, value) {
                        let after = members.update(at, (members[at].0, child));
                        assert forall|i: int, j: int| 0 <= i < j < after.len() implies (
                        #[trigger] after[i]).0 != (#[trigger] after[j]).0 by {
                            assert(after[i].0 == members[i].0);
                            assert(after[j].0 == members[j].0);
                        }
                        assert forall|i: int| 0 <= i < after.len() implies (
                        #[trigger] after[i]).1.wf() by {
                            if i != at {
                                assert(after[i] == members[i]);
                            }
                        }
                    }
                }
            },
            PathStep::ArrayIndex(index) => {
                if let Some(found) = as_items(node) {
                    let items = pad_nulls(found, index + 1);
                    assert forall|i: int| 0 <= i < items.len() implies (#[trigger] items[i]).wf() by {
                        if i < found.len() {
                            assert(items[i] == found[i]);
                        }
                    }
                    lemma_put_wf(items[index as int], rest, value);
                    if let Ok(child) = put(items[index as int], rest, value) {
                        let after = items.update(index as int, child);
                        assert forall|i: int| 0 <= i < after.len() implies (
                        #[trigger] after[i]).wf() by {
                            if i != index {
                                assert(after[i] == items[i]);
                            }
                        }
                    }
                }
            },
            PathStep::ArrayEnd => {
                if let Some(found) = as_items(node) {
                    lemma_put_wf(Json::Null, rest, value);
                    if let Ok(child) = put(Json::Null, rest, value) {
                        let after = found.push(child);
                        assert forall|i: int| 0 <= i < after.len() implies (
                        #[trigger] after[i]).wf() by {
                            if i < found.len() {
                                assert(after[i] == found[i]);
                            }
                        }
                    }
                }
            },
        }
    }
}

/// The position of the first member with the given key, or the number of
/// members where none has it.
fn find_member(members: &Vec<(String, JsonValue)>, key: &String) -> (at: usize)
    ensures
        at == member_index(members_view(members@), key@),
        at <= members@.len(),
{
    let mut at: usize = 0;
    proof {
        lemma_members_view(members@);
        assert(members_view(members@).skip(0) =~= members_view(members@));
    }
    while at < members.len() && members[at].0 != *key
        invariant
            at <= members@.len(),
            members_view(members@).len() == members@.len(),
            forall|i: int|
                0 <= i < members@.len() ==> #[trigger] members_view(members@)[i] == (
                    members@[i].0@,
                    members@[i].1@,
                ),
            member_index(members_view(members@), key@) == at + member_index(
                members_view(members@).skip(at as int),
                key@,
            ),
        decreases members@.len() - at,
    {
        proof {
            let tail = members_view(members@).skip(at as int);
            assert(tail[0] == members_view(members@)[at as int]);
            assert(tail.drop_first() =~= members_view(members@).skip(at + 1));
        }
        at += 1;
    }
    proof {
        let tail = members_view(members@).skip(at as int);
        if at < members@.len() {
            assert(tail[0] == members_view(members@)[at as int]);
        }
    }
    at
}

/// Puts `value` at `path` below `root`, creating what the path needs on its
/// way; a step that meets a node of the wrong kind leaves the document as it
/// was.
pub fn put_value(root: &mut JsonValue, path: &[PathAccess], value: JsonValue) -> (res: Result<
    (),
    PathError,
>)
    ensures
        match put(old(root)@, path_view(path@), value@) {
            Ok(tree) => res is Ok && final(root)@ == tree,
            Err(conflict) => res == Err::<(), PathError>(conflict) && final(root)@ == old(root)@,
        },
        old(root)@.wf() && value@.wf() ==> final(root)@.wf(),
    decreases path@.len(),
{
    proof {
        if old(root)@.wf() && value@.wf() {
            lemma_put_wf(old(root)@, path_view(path@), value@);
        }
    }
    if path.len() == 0 {
        *root = value;
        return Ok(());
    }
    let rest = slice_subrange(path, 1, path.len());
    proof {
        assert(path_view(rest@) =~= path_view(path@).drop_first());
        lemma_put_below_null(path_view(rest@), value@);
    }
    match &path[0] {
        PathAccess::ObjectKey(key) => {
            if root.is_null() {
                *root = JsonValue::Object(Vec::new());
            }
            match root {
                JsonValue::Object(members) => {
                    let ghost found = members_view(members@);
                    proof {
                        lemma_members_view(members@);
                        assert(as_members(old(root)@) == Some(found)) by {
                            if old(root)@ == Json::Null {
                                assert(found =~= Seq::empty());
                            }
                        }
                    }
                    let at = find_member(members, key);
                    if at == members.len() {
                        members.push((key.clone(), JsonValue::Null));
                    }
                    let ghost before = members@;
                    let ghost model = if at < found.len() {
                        found
                    } else {
                        found.push((key@, Json::Null))
                    };
                    proof {
                        lemma_members_view_pointwise(before, model);
                    }
                    let res = put_value(&mut members[at].1, rest, value);
                    proof {
                        let child = members@[at as int].1@;
                        lemma_members_view_pointwise(
                            members@,
                            model.update(at as int, (model[at as int].0, child)),
                        );
                        if res is Err {
                            assert(at < found.len());
                            assert(model.update(at as int, (model[at as int].0, child)) =~= found);
                        }
                    }
                    res
                },
                _ => Err(PathError::ExpectObject),
            }
        },
        PathAccess::ArrayIndex(index) => {
            if root.is_null() {
                *root = JsonValue::Array(Vec::new());
            }
            match root {
                JsonValue::Array(items) => {
                    let ghost found = items_view(items@);
                    proof {
                        lemma_items_view(items@);
                        assert(as_items(old(root)@) == Some(found)) by {
                            if old(root)@ == Json::Null {
                                assert(found =~= Seq::empty());
                            }
                        }
                    }
                    let ghost start = items@;
                    let at = *index as usize;
                    while items.len() <= at
                        invariant
                            start.len() <= items@.len(),
                            items@.len() <= at + 1 || items@ == start,
                            items@.subrange(0, start.len() as int) == start,
                            forall|i: int|
                                start.len() <= i < items@.len() ==> items@[i] == JsonValue::Null,
                        decreases at + 1 - items@.len(),
                    {
                        items.push(JsonValue::Null);
                    }
                    let ghost before = items@;
                    let ghost model = pad_nulls(found, index + 1);
                    proof {
                        assert forall|i: int| 0 <= i < before.len() implies #[trigger] model[i]
                            == before[i]@ by {
                            if i < start.len() {
                                assert(before[i] == before.subrange(0, start.len() as int)[i]);
                            }
                        }
                        lemma_items_view_pointwise(before, model);
                    }
                    let res = put_value(&mut items[at], rest, value);
                    proof {
                        let child = items@[at as int]@;
                        lemma_items_view_pointwise(items@, model.update(at as int, child));
                        if res is Err {
                            assert(at < found.len());
                            assert(model.update(at as int, child) =~= found);
                        }
                    }
                    res
                },
                _ => Err(PathError::ExpectArray),
            }
        },
        PathAccess::ArrayEnd => {
            if root.is_null() {
                *root = JsonValue::Array(Vec::new());
            }
            match root {
                JsonValue::Array(items) => {
                    let ghost found = items_view(items@);
                    proof {
                        lemma_items_view(items@);
                        assert(as_items(old(root)@) == Some(found)) by {
                            if old(root)@ == Json::Null {
                                assert(found =~= Seq::empty());
                            }
                        }
                    }
                    items.push(JsonValue::Null);
                    let last = items.len() - 1;
                    let res = put_value(&mut items[last], rest, value);
                    proof {
                        let child = items@[last as int]@;
                        lemma_items_view_pointwise(items@, found.push(child));
                    }
                    res
                },
                _ => Err(PathError::ExpectArray),
            }
        },
    }
}

/// Why a fragment could not be applied, in the model.
pub ghost enum BuildFailure {
    /// The value of a raw fragment is no JSON.
    RawSyntax,
    /// A step of the path met a node of the wrong kind.
    Conflict(PathError),
}

/// Why a body could not be built.
#[derive(Debug)]
pub enum BuildError {
    /// The value of a raw fragment is no JSON.
    RawSyntax(serde_json::Error),
    /// A step of a path met a node of the wrong kind.
    Conflict(PathError),
}

impl View for BuildError {
    type V = BuildFailure;

    open spec fn view(&self) -> BuildFailure {
        match self {
            BuildError::RawSyntax(_) => BuildFailure::RawSyntax,
            BuildError::Conflict(conflict) => BuildFailure::Conflict(*conflict),
        }
    }
}

impl BuildError {
    /// The error in words: for a conflict the kind of node that was
    /// expected, for a raw value what `serde_json` says of it.
    pub fn message(&self) -> (text: String)
        ensures
            self matches BuildError::Conflict(conflict) ==> text@ == conflict.text(),
    {
        match self {
            BuildError::RawSyntax(error) => error_text(error),
            BuildError::Conflict(conflict) => conflict.message(),
        }
    }
}

impl Fragment {
    /// The path of the fragment.
    pub open spec fn path(self) -> Seq<PathStep> {
        match self {
            Fragment::Literal { path, .. } => path,
            Fragment::Raw { path, .. } => path,
        }
    }

    /// The document that the fragment puts at its path: the written value as
    /// a JSON string for a literal fragment, what the written value denotes
    /// as JSON for a raw one, and nothing where that is no JSON.
    pub open spec fn value(self) -> Option<Json> {
        match self {
            Fragment::Literal { value, .. } => Some(Json::String(value)),
            Fragment::Raw { value, .. } => raw_json(value),
        }
    }
}

/// The document after one fragment has been applied to it.
pub open spec fn apply(tree: Json, fragment: Fragment) -> Result<Json, BuildFailure> {
    match fragment.value() {
        None => Err(BuildFailure::RawSyntax),
        Some(value) => match put(tree, fragment.path(), value) {
            Ok(next) => Ok(next),
            Err(conflict) => Err(BuildFailure::Conflict(conflict)),
        },
    }
}

/// The document after the fragments have been applied to it one after
/// another, or the first failure.
pub open spec fn fold(tree: Json, fragments: Seq<Fragment>) -> Result<Json, BuildFailure>
    decreases fragments.len(),
{
    if fragments.len() == 0 {
        Ok(tree)
    } else {
        match apply(tree, fragments[0]) {
            Ok(next) => fold(next, fragments.drop_first()),
            Err(failure) => Err(failure),
        }
    }
}

/// Applying fragments one after another is applying the first of them and
/// then the rest to what the first have built.
pub proof fn lemma_fold_in_order(tree: Json, first: Seq<Fragment>, rest: Seq<Fragment>)
    ensures
        fold(tree, first + rest) == match fold(tree, first) {
            Ok(built) => fold(built, rest),
            Err(failure) => Err(failure),
        },
    decreases first.len(),
{
    if first.len() == 0 {
        assert(first + rest =~= rest);
    } else {
        assert((first + rest).drop_first() =~= first.drop_first() + rest);
        if let Ok(next) = apply(tree, first[0]) {
            lemma_fold_in_order(next, first.drop_first(), rest);
        }
    }
}

/// Of two literal fragments with the same path, applied one after the
/// other, only the second shows: the document is the one that the second
/// alone would have given. This holds unless the path appends.
pub proof fn lemma_literal_overwrites(
    tree: Json,
    path: Seq<PathStep>,
    first: Seq<char>,
    second: Seq<char>,
)
    requires
        no_append(path),
        apply(tree, Fragment::Literal { path, value: first }) is Ok,
    ensures
        fold(
            tree,
            seq![Fragment::Literal { path, value: first }, Fragment::Literal { path, value: second }],
        ) == apply(tree, Fragment::Literal { path, value: second }),
{
    let earlier = Fragment::Literal { path, value: first };
    let later = Fragment::Literal { path, value: second };
    let both = seq![earlier, later];
    let once = apply(tree, earlier)->Ok_0;
    lemma_put_overwrites(tree, path, Json::String(first), Json::String(second));
    assert(both.drop_first() =~= seq![later]);
    assert(seq![later].drop_first() =~= Seq::<Fragment>::empty());
    assert(fold(once, seq![later]) == apply(once, later)) by {
        reveal_with_fuel(fold, 2);
    }
    assert(fold(tree, both) == fold(once, seq![later]));
}

/// Applying a literal fragment twice gives the same document as applying it
/// once, unless its path appends.
pub proof fn lemma_literal_twice(tree: Json, path: Seq<PathStep>, value: Seq<char>)
    requires
        no_append(path),
        apply(tree, Fragment::Literal { path, value }) is Ok,
    ensures
        fold(tree, seq![Fragment::Literal { path, value }, Fragment::Literal { path, value }])
            == apply(tree, Fragment::Literal { path, value }),
{
    lemma_literal_overwrites(tree, path, value, value);
}

/// Puts `value` at the place that the fragment names. This is the step that
/// follows the reading of a raw value; for a literal fragment the value is
/// the written text as a JSON string.
pub fn apply_value(root: &mut JsonValue, fragment: &BodyValue, value: JsonValue) -> (done: Result<
    (),
    BuildError,
>)
    ensures
        match put(old(root)@, fragment@.path(), value@) {
            Ok(next) => done is Ok && final(root)@ == next,
            Err(conflict) => done matches Err(error) && error@ == BuildFailure::Conflict(conflict)
                && final(root)@ == old(root)@,
        },
        old(root)@.wf() && value@.wf() ==> final(root)@.wf(),
{
    let path = match fragment {
        BodyValue::String { path, .. } => path,
        BodyValue::JSON { path, .. } => path,
    };
    match put_value(root, path.as_slice(), value) {
        Ok(()) => Ok(()),
        Err(conflict) => Err(BuildError::Conflict(conflict)),
    }
}

/// Applies one fragment to the document. A fragment that fails leaves the
/// document as it was.
pub fn apply_fragment(root: &mut JsonValue, fragment: &BodyValue) -> (done: Result<(), BuildError>)
    ensures
        match apply(old(root)@, fragment@) {
            Ok(next) => done is Ok && final(root)@ == next,
            Err(failure) => done matches Err(error) && error@ == failure && final(root)@ == old(
                root,
            )@,
        },
        old(root)@.wf() ==> final(root)@.wf(),
{
    match fragment {
        BodyValue::String { value, .. } => apply_value(
            root,
            fragment,
            JsonValue::String(value.clone()),
        ),
        BodyValue::JSON { value, .. } => match parse_raw(value.as_str()) {
            Ok(tree) => apply_value(root, fragment, tree),
            Err(error) => Err(BuildError::RawSyntax(error)),
        },
    }
}

/// The document that the fragments build when they are applied, in their
/// order, to the null document.
pub fn build_tree(values: &[BodyValue]) -> (built: Result<JsonValue, BuildError>)
    ensures
        match fold(Json::Null, fragments_view(values@)) {
            Ok(tree) => built matches Ok(root) && root@ == tree && tree.wf(),
            Err(failure) => built matches Err(error) && error@ == failure,
        },
{
    let mut root = JsonValue::Null;
    let mut at: usize = 0;
    let ghost fragments = fragments_view(values@);
    proof {
        assert(fragments.skip(0) =~= fragments);
    }
    while at < values.len()
        invariant
            at <= values@.len(),
            fragments == fragments_view(values@),
            root@.wf(),
            fold(Json::Null, fragments) == fold(root@, fragments.skip(at as int)),
        decreases values@.len() - at,
    {
        proof {
            let rest = fragments.skip(at as int);
            assert(rest[0] == values@[at as int]@);
            assert(rest.drop_first() =~= fragments.skip(at + 1));
        }
        match apply_fragment(&mut root, &values[at]) {
            Ok(()) => {},
            Err(error) => {
                return Err(error);
            },
        }
        at += 1;
    }
    Ok(root)
}

/// The JSON text of the document that the fragments build.
pub fn build(values: &[BodyValue]) -> (built: Result<String, BuildError>)
    ensures
        match fold(Json::Null, fragments_view(values@)) {
            Ok(tree) => built matches Ok(text) && text@ == json_text(tree),
            Err(failure) => built matches Err(error) && error@ == failure,
        },
{
    match build_tree(values) {
        Ok(root) => Ok(to_text(&root)),
        Err(error) => Err(error),
    }
}

} // verus!
