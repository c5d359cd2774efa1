//! JSON documents: reading what the service sends, building what it is sent.
use vstd::prelude::*;

verus! {

/// A JSON document as a mathematical value. An object is the list of its fields.
#[verifier::ext_equal]
pub enum JsonTree {
    Null,
    Bool(bool),
    /// The number's text.
    Number(Seq<char>),
    Text(Seq<char>),
    Array(Seq<JsonTree>),
    Object(Seq<(Seq<char>, JsonTree)>),
}

/// A JSON document.
#[derive(Debug)]
pub enum Json {
    Null,
    Bool(bool),
    /// The number's text.
    Number(String),
    Text(String),
    Array(Vec<Json>),
    Object(Vec<(String, Json)>),
}

impl Json {
    /// The document that this value holds.
    pub open spec fn tree(self) -> JsonTree
        decreases self,
    {
        match self {
            Json::Null => JsonTree::Null,
            Json::Bool(b) => JsonTree::Bool(b),
            Json::Number(n) => JsonTree::Number(n@),
            Json::Text(s) => JsonTree::Text(s@),
            Json::Array(items) => JsonTree::Array(
                Seq::new(
                    items@.len(),
                    |i: int|
                        if 0 <= i < items@.len() {
                            items@[i].tree()
                        } else {
                            JsonTree::Null
                        },
                ),
            ),
            Json::Object(fields) => JsonTree::Object(
                Seq::new(
                    fields@.len(),
                    |i: int|
                        if 0 <= i < fields@.len() {
                            (fields@[i].0@, fields@[i].1.tree())
                        } else {
                            (Seq::empty(), JsonTree::Null)
                        },
                ),
            ),
        }
    }
}

/// The value of the last field named `key`.
pub open spec fn field(fields: Seq<(Seq<char>, JsonTree)>, key: Seq<char>) -> Option<JsonTree>
    decreases fields.len(),
{
    if fields.len() == 0 {
        None
    } else if fields.last().0 == key {
        Some(fields.last().1)
    } else {
        field(fields.drop_last(), key)
    }
}

impl JsonTree {
    /// The member named `key`; nothing but an object has members.
    pub open spec fn member(self, key: Seq<char>) -> Option<JsonTree> {
        match self {
            JsonTree::Object(fields) => field(fields, key),
            _ => None,
        }
    }

    /// The text, if the document is one.
    pub open spec fn as_text(self) -> Option<Seq<char>> {
        match self {
            JsonTree::Text(s) => Some(s),
            _ => None,
        }
    }

    /// Whether the document is an object with a member `key` that is `true`.
    pub open spec fn flag(self, key: Seq<char>) -> bool {
        self.member(key) == Some(JsonTree::Bool(true))
    }
}

impl Json {
    /// The member named `key`.
    pub fn get(&self, key: &str) -> (r: Option<&Json>)
        ensures
            match r {
                Some(j) => self.tree().member(key@) == Some(j.tree()),
                None => self.tree().member(key@) is None,
            },
    {
        match self {
            Json::Object(fields) => {
                let mut i: usize = fields.len();
                let ghost trees = self.tree()->Object_0;
                proof {
                    assert(trees.take(trees.len() as int) =~= trees);
                }
                while i > 0
                    invariant
                        i <= fields.len(),
                        *self == Json::Object(*fields),
                        self.tree() == JsonTree::Object(trees),
                        trees.len() == fields@.len(),
                        forall|k: int|
                            0 <= k < trees.len() ==> #[trigger] trees[k] == (
                                fields@[k].0@,
                                fields@[k].1.tree(),
                            ),
                        field(trees, key@) == field(trees.take(i as int), key@),
                    decreases i,
                {
                    i -= 1;
                    proof {
                        let shown = trees.take(i + 1);
                        assert(shown.last() == trees[i as int]);
                        assert(shown.drop_last() =~= trees.take(i as int));
                    }
                    if crate::text::same_text(fields[i].0.as_str(), key) {
                        return Some(&fields[i].1);
                    }
                }
                None
            },
            _ => None,
        }
    }

    /// The text, if the document is one.
    pub fn as_str(&self) -> (r: Option<&str>)
        ensures
            match r {
                Some(s) => self.tree().as_text() == Some(s@),
                None => self.tree().as_text() is None,
            },
    {
        match self {
            Json::Text(s) => Some(s.as_str()),
            _ => None,
        }
    }

    /// Whether the document is an object with a member `key` that is `true`.
    pub fn flag(&self, key: &str) -> (r: bool)
        ensures
            r == self.tree().flag(key@),
    {
        match self.get(key) {
            Some(Json::Bool(b)) => *b,
            _ => false,
        }
    }

    /// A text.
    pub fn text(s: &str) -> (r: Json)
        ensures
            r.tree() == JsonTree::Text(s@),
    {
        Json::Text(s.to_owned())
    }

    /// A list of texts.
    pub fn texts(items: &Vec<String>) -> (r: Json)
        ensures
            r.tree() == text_list(crate::text::texts(items@)),
    {
        let mut out: Vec<Json> = Vec::new();
        let mut i: usize = 0;
        while i < items.len()
            invariant
                i <= items.len(),
                out@.len() == i,
                forall|k: int|
                    0 <= k < i ==> (#[trigger] out@[k]).tree() == JsonTree::Text(items@[k]@),
            decreases items.len() - i,
        {
            out.push(Json::text(items[i].as_str()));
            i += 1;
        }
        let r = Json::Array(out);
        proof {
            assert(r.tree()->Array_0 =~= text_list(crate::text::texts(items@))->Array_0);
        }
        r
    }

    /// An object with these fields.
    pub fn object(fields: Vec<(String, Json)>) -> (r: Json)
        ensures
            r.tree() == JsonTree::Object(field_trees(fields@)),
    {
        let r = Json::Object(fields);
        proof {
            assert(r.tree()->Object_0 =~= field_trees(fields@));
        }
        r
    }

    /// A list of one document.
    pub fn single(item: Json) -> (r: Json)
        ensures
            r.tree() == JsonTree::Array(seq![item.tree()]),
    {
        let mut items: Vec<Json> = Vec::new();
        items.push(item);
        let r = Json::Array(items);
        proof {
            assert(r.tree()->Array_0 =~= seq![item.tree()]);
        }
        r
    }
}

/// A list of texts as a document.
pub open spec fn text_list(items: Seq<Seq<char>>) -> JsonTree {
    JsonTree::Array(items.map_values(|s: Seq<char>| JsonTree::Text(s)))
}

/// The fields as documents.
pub open spec fn field_trees(fields: Seq<(String, Json)>) -> Seq<(Seq<char>, JsonTree)> {
    fields.map_values(|f: (String, Json)| (f.0@, f.1.tree()))
}

/// Adds a field at the end.
pub fn push_field(fields: &mut Vec<(String, Json)>, key: &str, value: Json)
    ensures
        field_trees(final(fields)@) == field_trees(old(fields)@).push((key@, value.tree())),
{
    fields.push((key.to_owned(), value));
    proof {
        assert(field_trees(fields@) =~= field_trees(old(fields)@).push((key@, value.tree())));
    }
}

/// No fields yet.
pub fn no_fields() -> (r: Vec<(String, Json)>)
    ensures
        field_trees(r@) == Seq::<(Seq<char>, JsonTree)>::empty(),
{
    let r: Vec<(String, Json)> = Vec::new();
    proof {
        assert(field_trees(r@) =~= Seq::<(Seq<char>, JsonTree)>::empty());
    }
    r
}

/// A parsed document of the `serde_json` crate.
#[verifier::external_type_specification]
#[verifier::external_body]
pub struct ExValue(serde_json::Value);

/// What a `serde_json::Value` holds.
pub uninterp spec fn value_tree(value: serde_json::Value) -> JsonTree;

/// What `serde_json::from_str` reads `text` as: a document, or the message of its refusal.
pub uninterp spec fn parsed_json(text: Seq<char>) -> Result<JsonTree, Seq<char>>;

/// How `serde_json` writes a document down.
pub uninterp spec fn json_text(tree: JsonTree) -> Seq<char>;

/// Calls `serde_json::from_str` for a `serde_json::Value`. The contract claims that the outcome
/// depends on the text alone, and names it.
#[verifier::external_body]
fn value_from_str(text: &str) -> (r: Result<serde_json::Value, String>)
    ensures
        match r {
            Ok(v) => parsed_json(text@) == Ok::<JsonTree, Seq<char>>(value_tree(v)),
            Err(e) => parsed_json(text@) == Err::<JsonTree, Seq<char>>(e@),
        },
{
    match serde_json::from_str::<serde_json::Value>(text) {
        Ok(value) => Ok(value),
        Err(error) => Err(error.to_string()),
    }
}

/// Moves a `serde_json::Value` into a [`Json`], variant by variant. The contract claims that
/// nothing is lost on the way.
#[verifier::external_body]
fn json_from_value(value: serde_json::Value) -> (r: Json)
    ensures
        r.tree() == value_tree(value),
{
    match value {
        serde_json::Value::Null => Json::Null,
        serde_json::Value::Bool(b) => Json::Bool(b),
        serde_json::Value::Number(n) => Json::Number(n.to_string()),
        serde_json::Value::String(s) => Json::Text(s),
        serde_json::Value::Array(items) => {
            Json::Array(items.into_iter().map(json_from_value).collect())
        },
        serde_json::Value::Object(fields) => {
            Json::Object(fields.into_iter().map(|(k, v)| (k, json_from_value(v))).collect())
        },
    }
}

/// Calls `to_string` of a `serde_json::Value`. The contract claims that the text depends on the
/// document alone, and names it.
#[verifier::external_body]
fn value_to_string(value: &serde_json::Value) -> (r: String)
    ensures
        r@ == json_text(value_tree(*value)),
{
    value.to_string()
}

/// How `serde_json` writes a document down over several lines, or the message of its refusal.
pub uninterp spec fn pretty_text(tree: JsonTree) -> Result<Seq<char>, Seq<char>>;

/// Calls `serde_json::to_string_pretty` on a `serde_json::Value`. The contract claims that the
/// outcome depends on the document alone, and names it.
#[verifier::external_body]
pub(crate) fn value_to_string_pretty(value: &serde_json::Value) -> (r: Result<String, String>)
    ensures
        match r {
            Ok(s) => pretty_text(value_tree(*value)) == Ok::<Seq<char>, Seq<char>>(s@),
            Err(e) => pretty_text(value_tree(*value)) == Err::<Seq<char>, Seq<char>>(e@),
        },
{
    match serde_json::to_string_pretty(value) {
        Ok(text) => Ok(text),
        Err(error) => Err(error.to_string()),
    }
}

/// The fields, whose names ascend, with the field `key` set to `value`.
pub open spec fn with_field(
    fields: Seq<(Seq<char>, JsonTree)>,
    key: Seq<char>,
    value: JsonTree,
) -> Seq<(Seq<char>, JsonTree)>
    decreases fields.len(),
{
    if fields.len() == 0 {
        seq![(key, value)]
    } else if fields.last().0 == key {
        fields.drop_last().push((key, value))
    } else if crate::order::text_before(key, fields.last().0) {
        with_field(fields.drop_last(), key, value).push(fields.last())
    } else {
        fields.push((key, value))
    }
}

/// What a `serde_json::Value` built from a document holds. Its objects keep one member of a name,
/// the last, in the order of the names. A number becomes what its text is read as, or null where
/// the text cannot be read.
pub open spec fn held(tree: JsonTree) -> JsonTree
    decreases tree,
{
    match tree {
        JsonTree::Number(n) => match parsed_json(n) {
            Ok(read) => read,
            Err(_) => JsonTree::Null,
        },
        JsonTree::Array(items) => JsonTree::Array(
            Seq::new(
                items.len(),
                |i: int|
                    if 0 <= i < items.len() {
                        held(items[i])
                    } else {
                        JsonTree::Null
                    },
            ),
        ),
        JsonTree::Object(fields) => JsonTree::Object(held_fields(fields)),
        _ => tree,
    }
}

/// The fields of an object as a `serde_json::Value` holds them.
pub open spec fn held_fields(fields: Seq<(Seq<char>, JsonTree)>) -> Seq<(Seq<char>, JsonTree)>
    decreases fields,
{
    if fields.len() == 0 {
        Seq::empty()
    } else {
        let last = fields[fields.len() - 1];
        with_field(
            held_fields(fields.subrange(0, fields.len() - 1)),
            last.0,
            held(last.1),
        )
    }
}

/// Moves a [`Json`] into a `serde_json::Value`, variant by variant. A number's text is read with
/// `serde_json::from_str`, and what that refuses becomes null. An object's fields go one by one
/// into a `serde_json::Map` with `insert`. The contract claims of `insert` that it replaces a
/// member of that name, and that the map walks its members in the order of their names.
#[verifier::external_body]
fn value_from_json(json: &Json) -> (r: serde_json::Value)
    ensures
        value_tree(r) == held(json.tree()),
{
    match json {
        Json::Null => serde_json::Value::Null,
        Json::Bool(b) => serde_json::Value::Bool(*b),
        Json::Number(n) => serde_json::from_str(n).unwrap_or(serde_json::Value::Null),
        Json::Text(s) => serde_json::Value::String(s.clone()),
        Json::Array(items) => serde_json::Value::Array(items.iter().map(value_from_json).collect()),
        Json::Object(fields) => {
            let mut map = serde_json::Map::new();
            for (key, value) in fields.iter() {
                map.insert(key.clone(), value_from_json(value));
            }
            serde_json::Value::Object(map)
        },
    }
}

/// A document as it goes over the wire.
pub open spec fn serialized(tree: JsonTree) -> Seq<char> {
    json_text(held(tree))
}

/// Writes a document down as it goes over the wire.
pub fn serialize(message: &Json) -> (r: String)
    ensures
        r@ == serialized(message.tree()),
{
    value_to_string(&value_from_json(message))
}

/// Reads a JSON document.
pub fn parse_json(text: &str) -> (r: Result<Json, String>)
    ensures
        match r {
            Ok(j) => parsed_json(text@) == Ok::<JsonTree, Seq<char>>(j.tree()),
            Err(e) => parsed_json(text@) == Err::<JsonTree, Seq<char>>(e@),
        },
{
    match value_from_str(text) {
        Ok(value) => Ok(json_from_value(value)),
        Err(e) => Err(e),
    }
}

/// Reads a JSON document, and writes it down again in its compact form.
pub fn parse_and_show_json(text: &str) -> (r: Result<(Json, String), String>)
    ensures
        match r {
            Ok((j, shown)) => {
                &&& parsed_json(text@) == Ok::<JsonTree, Seq<char>>(j.tree())
                &&& shown@ == json_text(j.tree())
            },
            Err(e) => parsed_json(text@) == Err::<JsonTree, Seq<char>>(e@),
        },
{
    match value_from_str(text) {
        Ok(value) => {
            let shown = value_to_string(&value);
            Ok((json_from_value(value), shown))
        },
        Err(e) => Err(e),
    }
}

proof fn lemma_with_field(
    fields: Seq<(Seq<char>, JsonTree)>,
    key: Seq<char>,
    value: JsonTree,
    asked: Seq<char>,
)
    ensures
        field(with_field(fields, key, value), asked) == if asked == key {
            Some(value)
        } else {
            field(fields, asked)
        },
    decreases fields.len(),
{
    let put = with_field(fields, key, value);
    if fields.len() == 0 {
        assert(put.drop_last() =~= fields);
        assert(field(fields, asked) is None);
    } else if fields.last().0 == key {
        assert(put.drop_last() =~= fields.drop_last());
    } else if crate::order::text_before(key, fields.last().0) {
        lemma_with_field(fields.drop_last(), key, value, asked);
        assert(put.drop_last() =~= with_field(fields.drop_last(), key, value));
    } else {
        assert(put.drop_last() =~= fields);
    }
}

proof fn lemma_held_field(fields: Seq<(Seq<char>, JsonTree)>, key: Seq<char>)
    ensures
        field(held_fields(fields), key) == match field(fields, key) {
            Some(value) => Some(held(value)),
            None => None,
        },
    decreases fields.len(),
{
    if fields.len() == 0 {
        assert(field(fields, key) is None);
        assert(held_fields(fields) =~= Seq::empty());
    } else {
        let before = fields.subrange(0, fields.len() - 1);
        assert(before =~= fields.drop_last());
        lemma_held_field(before, key);
        lemma_with_field(held_fields(before), fields.last().0, held(fields.last().1), key);
    }
}

/// What is sent has the members of what was built, each under its name.
pub proof fn law_sent_members(tree: JsonTree, key: Seq<char>)
    ensures
        tree is Object ==> held(tree).member(key) == match tree.member(key) {
            Some(value) => Some(held(value)),
            None => None,
        },
{
    if let JsonTree::Object(fields) = tree {
        lemma_held_field(fields, key);
    }
}

/// A member is the value of the last field of its name; where no field has the name there is none.
pub proof fn law_the_last_field_of_a_name_counts(
    fields: Seq<(Seq<char>, JsonTree)>,
    key: Seq<char>,
    i: int,
)
    ensures
        0 <= i < fields.len() && fields[i].0 == key && (forall|j: int|
            i < j < fields.len() ==> (#[trigger] fields[j]).0 != key) ==> JsonTree::Object(
            fields,
        ).member(key) == Some(fields[i].1),
        (forall|j: int| 0 <= j < fields.len() ==> (#[trigger] fields[j]).0 != key)
            ==> JsonTree::Object(fields).member(key) is None,
    decreases fields.len(),
{
    if fields.len() > 0 {
        let rest = fields.drop_last();
        law_the_last_field_of_a_name_counts(rest, key, i);
        assert(fields.last() == fields[fields.len() - 1]);
        assert forall|j: int| 0 <= j < rest.len() implies (#[trigger] rest[j]) == fields[j] by {}
        if fields.last().0 != key {
            assert(field(fields, key) == field(rest, key));
        }
    }
}

/// Only objects have members, only texts are texts, and a flag is a member that is true.
pub proof fn law_what_a_document_is(tree: JsonTree, key: Seq<char>)
    ensures
        tree !is Object ==> tree.member(key) is None,
        tree.as_text() == match tree {
            JsonTree::Text(s) => Some(s),
            _ => None,
        },
        tree.flag(key) <==> (tree.member(key) matches Some(value) && value == JsonTree::Bool(true)),
{
}

/// A list of texts is an array of them, in order.
pub proof fn law_a_list_of_texts(items: Seq<Seq<char>>)
    ensures
        text_list(items) matches JsonTree::Array(list) && list.len() == items.len() && forall|i: int|
            0 <= i < items.len() ==> (#[trigger] list[i]) == JsonTree::Text(items[i]),
{
}

/// What is sent of a value that is no object: null, truth values and texts as they are, and of an
/// array each item in its place.
pub proof fn law_sent_values(tree: JsonTree)
    ensures
        tree is Null || tree is Bool || tree is Text ==> held(tree) == tree,
        tree matches JsonTree::Array(items) ==> (held(tree) matches JsonTree::Array(sent)
            && sent.len() == items.len() && forall|i: int|
            0 <= i < items.len() ==> #[trigger] sent[i] == held(items[i])),
        tree is Object ==> held(tree) is Object,
{
}

/// A document is what its value says, part by part.
pub proof fn law_a_document_is_what_its_value_says(value: Json)
    ensures
        match value {
            Json::Null => value.tree() is Null,
            Json::Bool(b) => value.tree() == JsonTree::Bool(b),
            Json::Number(n) => value.tree() == JsonTree::Number(n@),
            Json::Text(s) => value.tree() == JsonTree::Text(s@),
            Json::Array(items) => value.tree() matches JsonTree::Array(trees) && trees.len()
                == items@.len() && forall|i: int|
                0 <= i < items@.len() ==> (#[trigger] trees[i]) == items@[i].tree(),
            Json::Object(fields) => value.tree() matches JsonTree::Object(trees) && trees.len()
                == fields@.len() && forall|i: int|
                0 <= i < fields@.len() ==> (#[trigger] trees[i]) == (
                    fields@[i].0@,
                    fields@[i].1.tree(),
                ),
        },
{
}

} // verus!
