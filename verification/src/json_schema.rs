//! Templates for the input of a tool: from the JSON Schema of the input, a
//! text that shows a human what to fill in.
use vstd::prelude::*;
use crate::error::{NahError, NahErrorView};
use crate::json::{Json, last_index, lemma_last_index_bounds};
use crate::text::{concat, concat3, from_chars_range, str_eq, texts, to_chars};

verus! {

/// The types of a JSON Schema that a template can be made for.
#[derive(Debug, Clone, Copy, PartialEq, Eq, Structural)]
pub enum JSONSchemaTypeName {
    String,
    Object,
    Number,
    Boolean,
    Null,
}

/// What `NahError::received_invalid_json_schema` makes.
pub open spec fn invalid_schema(message: Seq<char>) -> NahErrorView {
    NahErrorView { code: 7, message: "Received invalid JSON Schema: "@ + message, source: None }
}

/// Whether a value is an object without members.
pub fn is_empty_object(value: &Json) -> (r: bool)
    ensures
        r == (value matches Json::Object(members) && members@.len() == 0),
{
    match value {
        Json::Object(members) => members.len() == 0,
        _ => false,
    }
}

/// The type that a schema names under `type`.
pub open spec fn type_name_of(schema: Json) -> Result<JSONSchemaTypeName, NahErrorView> {
    match schema.child("type"@) {
        Some(Json::String(t)) => if t@ == "string"@ {
            Ok(JSONSchemaTypeName::String)
        } else if t@ == "object"@ {
            Ok(JSONSchemaTypeName::Object)
        } else if t@ == "number"@ {
            Ok(JSONSchemaTypeName::Number)
        } else if t@ == "boolean"@ {
            Ok(JSONSchemaTypeName::Boolean)
        } else if t@ == "null"@ {
            Ok(JSONSchemaTypeName::Null)
        } else {
            Err(invalid_schema("unknown type name : "@ + t@))
        },
        _ => Err(invalid_schema("type name not found"@)),
    }
}

/// Reads the type that a schema names.
pub fn get_type_name(schema: &Json) -> (r: Result<JSONSchemaTypeName, NahError>)
    ensures
        match type_name_of(*schema) {
            Ok(t) => r == Ok::<_, NahError>(t),
            Err(e) => r matches Err(x) && x@ == e,
        },
{
    match schema.get("type") {
        Some(Json::String(t)) => {
            let name = t.as_str();
            if str_eq(name, "string") {
                Ok(JSONSchemaTypeName::String)
            } else if str_eq(name, "object") {
                Ok(JSONSchemaTypeName::Object)
            } else if str_eq(name, "number") {
                Ok(JSONSchemaTypeName::Number)
            } else if str_eq(name, "boolean") {
                Ok(JSONSchemaTypeName::Boolean)
            } else if str_eq(name, "null") {
                Ok(JSONSchemaTypeName::Null)
            } else {
                let message = concat("unknown type name : ", name);
                Err(NahError::received_invalid_json_schema(message.as_str(), None))
            }
        },
        _ => Err(NahError::received_invalid_json_schema("type name not found", None)),
    }
}

/// The properties of an object schema: the members of the object under
/// `properties`, each the name of a field with the schema of the field.
pub open spec fn properties_of(schema: Json) -> Result<Seq<(String, Json)>, NahErrorView> {
    match schema.child("properties"@) {
        Some(Json::Object(members)) => Ok(members@),
        _ => Err(invalid_schema("properties not found on an object"@)),
    }
}

/// Reads the properties of an object schema.
pub fn get_properties(schema: &Json) -> (r: Result<&Vec<(String, Json)>, NahError>)
    ensures
        match properties_of(*schema) {
            Ok(members) => r matches Ok(v) && v@ == members,
            Err(e) => r matches Err(x) && x@ == e,
        },
{
    match schema.get("properties") {
        Some(Json::Object(members)) => Ok(members),
        _ => Err(
            NahError::received_invalid_json_schema("properties not found on an object", None),
        ),
    }
}

/// `line` without the comma at its end, where it ends in one.
pub open spec fn without_comma(line: Seq<char>) -> Seq<char> {
    if line.len() > 0 && line.last() == ',' {
        line.drop_last()
    } else {
        line
    }
}

/// The lines with the comma taken off the end of the last one.
pub open spec fn close_lines(lines: Seq<Seq<char>>) -> Seq<Seq<char>> {
    if lines.len() > 0 {
        lines.drop_last().push(without_comma(lines.last()))
    } else {
        lines
    }
}

/// The lines of the template of a schema, each value with a comma after it:
/// - a string, a number, a boolean and null are one line that says what to
///   fill in;
/// - an object is an opening brace, then for every property its name before
///   the first line of the template of its schema, four columns further in,
///   and a closing brace; the last line before the closing brace has no
///   comma.
pub open spec fn template_lines(schema: Json, indent: Seq<char>) -> Result<
    Seq<Seq<char>>,
    NahErrorView,
>
    decreases schema, 1nat,
{
    match type_name_of(schema) {
        Err(e) => Err(e),
        Ok(JSONSchemaTypeName::String) => Ok(seq!["\"<FILL A STRING>\","@]),
        Ok(JSONSchemaTypeName::Null) => Ok(seq!["null,"@]),
        Ok(JSONSchemaTypeName::Number) => Ok(seq!["<FILL A NUMBER>,"@]),
        Ok(JSONSchemaTypeName::Boolean) => Ok(seq!["<FILL A BOOLEAN VALUE>,"@]),
        Ok(JSONSchemaTypeName::Object) => match schema {
            Json::Object(top) => {
                let at = last_index(top@, "properties"@);
                if 0 <= at < top@.len() {
                    match top@[at].1 {
                        Json::Object(members) => match property_lines(
                            members@,
                            members@.len() as int,
                            indent,
                        ) {
                            Err(e) => Err(e),
                            Ok(lines) => Ok(close_lines(seq!["{"@] + lines).push(indent + "},"@)),
                        },
                        _ => Err(invalid_schema("properties not found on an object"@)),
                    }
                } else {
                    Err(invalid_schema("properties not found on an object"@))
                }
            },
            _ => Err(invalid_schema("properties not found on an object"@)),
        },
    }
}

/// The lines of the first `n` properties of an object schema.
pub open spec fn property_lines(members: Seq<(String, Json)>, n: int, indent: Seq<char>) -> Result<
    Seq<Seq<char>>,
    NahErrorView,
>
    decreases members, 0nat, n,
{
    if n <= 0 || n > members.len() {
        Ok(Seq::empty())
    } else {
        match property_lines(members, n - 1, indent) {
            Err(e) => Err(e),
            Ok(before) => match template_lines(members[n - 1].1, indent + "    "@) {
                Err(e) => Err(e),
                Ok(field) => if field.len() == 0 {
                    Ok(before)
                } else {
                    Ok(
                        before.push(
                            indent + "    \""@ + members[n - 1].0@ + "\": "@ + field[0],
                        ) + field.skip(1),
                    )
                },
            },
        }
    }
}

/// The template as one text: the lines of the template, with the comma
/// taken off the end of the last one, one below the other.
pub open spec fn joined_lines(lines: Seq<Seq<char>>) -> Seq<char>
    decreases lines.len(),
{
    if lines.len() == 0 {
        Seq::empty()
    } else if lines.len() == 1 {
        lines[0]
    } else {
        joined_lines(lines.drop_last()) + "\n"@ + lines.last()
    }
}

/// `line` without its last character.
pub open spec fn without_last(line: Seq<char>) -> Seq<char> {
    if line.len() > 0 {
        line.drop_last()
    } else {
        line
    }
}

fn drop_last_char(line: &str, only_comma: bool) -> (r: String)
    ensures
        r@ == if only_comma {
            without_comma(line@)
        } else {
            without_last(line@)
        },
{
    let v = to_chars(line);
    let n = v.len();
    if n > 0 && (!only_comma || v[n - 1] == ',') {
        from_chars_range(&v, 0, n - 1)
    } else {
        assert(v@.subrange(0, n as int) =~= v@);
        from_chars_range(&v, 0, n)
    }
}

/// Makes the lines of the template of a schema.
#[verifier::loop_isolation(false)]
pub fn create_instance_template_impl(schema: &Json, indent: &str) -> (r: Result<
    Vec<String>,
    NahError,
>)
    ensures
        match template_lines(*schema, indent@) {
            Ok(lines) => r matches Ok(v) && texts(v@) == lines,
            Err(e) => r matches Err(x) && x@ == e,
        },
    decreases schema,
{
    let kind = match get_type_name(schema) {
        Ok(t) => t,
        Err(e) => {
            return Err(e);
        },
    };
    match kind {
        JSONSchemaTypeName::String => {
            let v = vec!["\"<FILL A STRING>\",".to_owned()];
            assert(texts(v@) =~= seq!["\"<FILL A STRING>\","@]);
            Ok(v)
        },
        JSONSchemaTypeName::Null => {
            let v = vec!["null,".to_owned()];
            assert(texts(v@) =~= seq!["null,"@]);
            Ok(v)
        },
        JSONSchemaTypeName::Number => {
            let v = vec!["<FILL A NUMBER>,".to_owned()];
            assert(texts(v@) =~= seq!["<FILL A NUMBER>,"@]);
            Ok(v)
        },
        JSONSchemaTypeName::Boolean => {
            let v = vec!["<FILL A BOOLEAN VALUE>,".to_owned()];
            assert(texts(v@) =~= seq!["<FILL A BOOLEAN VALUE>,"@]);
            Ok(v)
        },
        JSONSchemaTypeName::Object => {
            let (top, at) = match schema {
                Json::Object(top) => match crate::json::find_member(top, "properties") {
                    Some(at) => (top, at),
                    None => {
                        return Err(
                            NahError::received_invalid_json_schema(
                                "properties not found on an object",
                                None,
                            ),
                        );
                    },
                },
                _ => {
                    return Err(
                        NahError::received_invalid_json_schema(
                            "properties not found on an object",
                            None,
                        ),
                    );
                },
            };
            proof {
                lemma_last_index_bounds(top@, "properties"@);
            }
            let members = match &top[at].1 {
                Json::Object(members) => members,
                _ => {
                    return Err(
                        NahError::received_invalid_json_schema(
                            "properties not found on an object",
                            None,
                        ),
                    );
                },
            };
            let child_indent = concat(indent, "    ");
            let mut result: Vec<String> = Vec::new();
            result.push("{".to_owned());
            let mut i: usize = 0;
            assert(texts(result@) =~= seq!["{"@] + Seq::<Seq<char>>::empty());
            while i < members.len()
                invariant
                    i <= members.len(),
                    property_lines(members@, i as int, indent@) matches Ok(lines) && texts(result@)
                        == seq!["{"@] + lines,
                decreases members.len() - i,
            {
                let field = match create_instance_template_impl(
                    &members[i].1,
                    child_indent.as_str(),
                ) {
                    Ok(f) => f,
                    Err(e) => {
                        proof {
                            lemma_property_lines_fail(members@, i + 1, indent@);
                        }
                        return Err(e);
                    },
                };
                if field.len() > 0 {
                    let ghost before = texts(result@);
                    let mut first = concat3(indent, "    \"", members[i].0.as_str());
                    first.append("\": ");
                    first.append(field[0].as_str());
                    result.push(first);
                    let mut k: usize = 1;
                    assert(texts(field@).skip(1).take(0) =~= Seq::empty());
                    while k < field.len()
                        invariant
                            1 <= k <= field.len(),
                            texts(result@) == before.push(
                                indent@ + "    \""@ + members@[i as int].0@ + "\": "@ + field@[0]@,
                            ) + texts(field@).skip(1).take(k - 1),
                        decreases field.len() - k,
                    {
                        let ghost so_far = texts(result@);
                        result.push(field[k].clone());
                        assert(texts(result@) =~= so_far.push(field@[k as int]@));
                        assert(texts(field@).skip(1).take(k as int) =~= texts(field@).skip(1).take(
                            k - 1,
                        ).push(field@[k as int]@));
                        k = k + 1;
                    }
                    assert(texts(field@).skip(1).take(field.len() - 1) =~= texts(field@).skip(1));
                    assert(texts(field@)[0] == field@[0]@);
                }
                i = i + 1;
            }
            let last = result.len() - 1;
            let closed = drop_last_char(result[last].as_str(), true);
            let ghost open = texts(result@);
            result.set(last, closed);
            assert(texts(result@) =~= close_lines(open));
            let ghost body = texts(result@);
            result.push(concat(indent, "},"));
            assert(texts(result@) =~= body.push(indent@ + "},"@));
            Ok(result)
        },
    }
}

/// Once the template of a property fails, the template of the object fails
/// in the same way.
proof fn lemma_property_lines_fail(members: Seq<(String, Json)>, k: int, indent: Seq<char>)
    requires
        0 <= k <= members.len(),
        property_lines(members, k, indent) is Err,
    ensures
        property_lines(members, members.len() as int, indent) == property_lines(
            members,
            k,
            indent,
        ),
    decreases members.len() - k,
{
    if k < members.len() {
        lemma_property_lines_fail_step(members, k, indent);
        lemma_property_lines_fail(members, k + 1, indent);
    }
}

proof fn lemma_property_lines_fail_step(members: Seq<(String, Json)>, k: int, indent: Seq<char>)
    requires
        0 <= k < members.len(),
        property_lines(members, k, indent) is Err,
    ensures
        property_lines(members, k + 1, indent) == property_lines(members, k, indent),
{
}

/// The template of a schema as one text.
pub open spec fn instance_template(schema: Json) -> Result<Seq<char>, NahErrorView> {
    match template_lines(schema, Seq::empty()) {
        Ok(lines) => Ok(
            joined_lines(
                if lines.len() > 0 {
                    lines.drop_last().push(without_last(lines.last()))
                } else {
                    lines
                },
            ),
        ),
        Err(e) => Err(e),
    }
}

/// Makes the template that shows what a value of a schema looks like.
pub fn create_instance_template(schema: &Json) -> (r: Result<String, NahError>)
    ensures
        match instance_template(*schema) {
            Ok(t) => r matches Ok(s) && s@ == t,
            Err(e) => r matches Err(x) && x@ == e,
        },
{
    proof {
        reveal_strlit("");
        assert(""@ =~= Seq::<char>::empty());
    }
    let mut lines = match create_instance_template_impl(schema, "") {
        Ok(lines) => lines,
        Err(e) => {
            return Err(e);
        },
    };
    if lines.len() > 0 {
        let last = lines.len() - 1;
        let cut = drop_last_char(lines[last].as_str(), false);
        let ghost before = texts(lines@);
        lines.set(last, cut);
        assert(texts(lines@) =~= before.drop_last().push(without_last(before.last())));
    }
    let ghost all = texts(lines@);
    let mut out = String::new();
    let mut i: usize = 0;
    assert(all.take(0) =~= Seq::empty());
    while i < lines.len()
        invariant
            i <= lines.len(),
            all == texts(lines@),
            out@ == joined_lines(all.take(i as int)),
        decreases lines.len() - i,
    {
        proof {
            assert(all.take(i + 1).drop_last() =~= all.take(i as int));
            assert(all.take(i + 1).last() == lines@[i as int]@);
        }
        if i > 0 {
            out.append("\n");
        } else {
            assert(out@ + lines@[0]@ =~= lines@[0]@);
        }
        out.append(lines[i].as_str());
        i = i + 1;
    }
    assert(all.take(lines.len() as int) =~= all);
    Ok(out)
}

} // verus!
