//! The texts of the interactive shell: how a command line is cut into parts,
//! and how the files that a user edits are read and prepared.
use vstd::prelude::*;
use crate::codec::{json_parse, parse};
use crate::definitions::MCPPromptArgument;
use crate::error::{NahError, invalid_argument};
use crate::json::{Json, JsonView};
use crate::text::{
    concat3, from_chars_range, split, split_text, starts_with, texts, to_chars, trim, trimmed,
};

verus! {

/// Whether `c` is one of the ASCII white space characters: tab, line feed,
/// form feed, carriage return and space.
pub open spec fn is_ascii_whitespace(c: char) -> bool {
    c == '\t' || c == '\n' || c == '\u{000C}' || c == '\r' || c == ' '
}

fn check_ascii_whitespace(c: char) -> (r: bool)
    ensures
        r == is_ascii_whitespace(c),
{
    c == '\t' || c == '\n' || c == '\u{000C}' || c == '\r' || c == ' '
}

/// Where the cutting of a command line stands.
pub enum CutMode {
    /// Between two parts.
    Between,
    /// Inside a part that did not begin with a quote.
    Plain,
    /// Inside a part that began with a quote; `escaped` says whether the
    /// last character was a backslash.
    Quoted { escaped: bool },
}

/// The parts of a command line from position `pos` on, where the part at
/// hand, if there is one, began at `start`:
/// - white space ends a plain part and is passed over between parts;
/// - a quote between parts begins a quoted part, which runs up to and
///   including the next quote that no backslash stands before;
/// - the end of the line ends the part at hand.
pub open spec fn parts_from(s: Seq<char>, pos: int, start: int, mode: CutMode) -> Seq<Seq<char>>
    decreases s.len() - pos,
{
    if pos < 0 || pos >= s.len() {
        match mode {
            CutMode::Between => Seq::empty(),
            _ => seq![s.subrange(start, s.len() as int)],
        }
    } else {
        let c = s[pos];
        match mode {
            CutMode::Quoted { escaped } => if c == '"' && !escaped {
                seq![s.subrange(start, pos + 1)] + parts_from(s, pos + 1, pos + 1, CutMode::Between)
            } else {
                parts_from(s, pos + 1, start, CutMode::Quoted { escaped: c == '\\' })
            },
            CutMode::Plain => if is_ascii_whitespace(c) {
                seq![s.subrange(start, pos)] + parts_from(s, pos + 1, pos + 1, CutMode::Between)
            } else {
                parts_from(s, pos + 1, start, CutMode::Plain)
            },
            CutMode::Between => if is_ascii_whitespace(c) {
                parts_from(s, pos + 1, pos + 1, CutMode::Between)
            } else if c == '"' {
                parts_from(s, pos + 1, pos, CutMode::Quoted { escaped: false })
            } else {
                parts_from(s, pos + 1, pos, CutMode::Plain)
            },
        }
    }
}

/// The parts of a command line.
pub open spec fn command_parts(s: Seq<char>) -> Seq<Seq<char>> {
    parts_from(s, 0, 0, CutMode::Between)
}

/// Whether no part of a list is empty.
pub open spec fn no_empty_part(parts: Seq<Seq<char>>) -> bool {
    forall|i: int| 0 <= i < parts.len() ==> (#[trigger] parts[i]).len() > 0
}

/// Where a piece and every part of a list are not empty, no part of the
/// list with the piece in front is empty.
proof fn lemma_first_and_rest(piece: Seq<char>, rest: Seq<Seq<char>>)
    requires
        piece.len() > 0,
        no_empty_part(rest),
    ensures
        no_empty_part(seq![piece] + rest),
{
    let all = seq![piece] + rest;
    assert forall|i: int| 0 <= i < all.len() implies (#[trigger] all[i]).len() > 0 by {
        if i > 0 {
            assert(all[i] == rest[i - 1]);
        }
    }
}

/// Every part that is cut from `pos` on is a piece of the line that is not
/// empty.
proof fn lemma_parts_from_not_empty(s: Seq<char>, pos: int, start: int, mode: CutMode)
    requires
        0 <= start <= pos <= s.len(),
        !(mode is Between) ==> start < pos,
    ensures
        no_empty_part(parts_from(s, pos, start, mode)),
    decreases s.len() - pos,
{
    if pos < s.len() {
        let c = s[pos];
        match mode {
            CutMode::Quoted { escaped } => {
                if c == '"' && !escaped {
                    lemma_parts_from_not_empty(s, pos + 1, pos + 1, CutMode::Between);
                    lemma_first_and_rest(
                        s.subrange(start, pos + 1),
                        parts_from(s, pos + 1, pos + 1, CutMode::Between),
                    );
                } else {
                    lemma_parts_from_not_empty(
                        s,
                        pos + 1,
                        start,
                        CutMode::Quoted { escaped: c == '\\' },
                    );
                }
            },
            CutMode::Plain => {
                if is_ascii_whitespace(c) {
                    lemma_parts_from_not_empty(s, pos + 1, pos + 1, CutMode::Between);
                    lemma_first_and_rest(
                        s.subrange(start, pos),
                        parts_from(s, pos + 1, pos + 1, CutMode::Between),
                    );
                } else {
                    lemma_parts_from_not_empty(s, pos + 1, start, CutMode::Plain);
                }
            },
            CutMode::Between => {
                if is_ascii_whitespace(c) {
                    lemma_parts_from_not_empty(s, pos + 1, pos + 1, CutMode::Between);
                } else if c == '"' {
                    lemma_parts_from_not_empty(
                        s,
                        pos + 1,
                        pos,
                        CutMode::Quoted { escaped: false },
                    );
                } else {
                    lemma_parts_from_not_empty(s, pos + 1, pos, CutMode::Plain);
                }
            },
        }
    } else if !(mode is Between) {
        assert(s.subrange(start, s.len() as int).len() > 0);
    }
}

/// No part of a command line is empty.
pub proof fn lemma_command_parts_not_empty(s: Seq<char>)
    ensures
        no_empty_part(command_parts(s)),
{
    lemma_parts_from_not_empty(s, 0, 0, CutMode::Between);
}

/// Cuts a command line into its parts: words between white space, and
/// quoted texts with their quotes.
pub fn split_command_into_parts(command: &str) -> (r: Vec<String>)
    ensures
        texts(r@) == command_parts(command@),
{
    let s = to_chars(command);
    let n = s.len();
    let mut parts: Vec<String> = Vec::new();
    let mut pos: usize = 0;
    let mut start: usize = 0;
    let mut mode = CutMode::Between;
    assert(texts(parts@) =~= Seq::empty());
    assert(Seq::<Seq<char>>::empty() + command_parts(s@) =~= command_parts(s@));
    while pos < n
        invariant
            n == s.len(),
            s@ == command@,
            start <= pos <= n,
            command_parts(s@) == texts(parts@) + parts_from(s@, pos as int, start as int, mode),
        decreases n - pos,
    {
        let c = s[pos];
        let ghost before = texts(parts@);
        match mode {
            CutMode::Quoted { escaped } => {
                if c == '"' && !escaped {
                    parts.push(from_chars_range(&s, start, pos + 1));
                    assert(texts(parts@) =~= before.push(s@.subrange(start as int, pos + 1)));
                    start = pos + 1;
                    mode = CutMode::Between;
                } else {
                    mode = CutMode::Quoted { escaped: c == '\\' };
                }
            },
            CutMode::Plain => {
                if check_ascii_whitespace(c) {
                    parts.push(from_chars_range(&s, start, pos));
                    assert(texts(parts@) =~= before.push(s@.subrange(start as int, pos as int)));
                    start = pos + 1;
                    mode = CutMode::Between;
                }
            },
            CutMode::Between => {
                if check_ascii_whitespace(c) {
                    start = pos + 1;
                } else if c == '"' {
                    start = pos;
                    mode = CutMode::Quoted { escaped: false };
                } else {
                    start = pos;
                    mode = CutMode::Plain;
                }
            },
        }
        pos = pos + 1;
    }
    match mode {
        CutMode::Between => {
            assert(texts(parts@) + Seq::<Seq<char>>::empty() =~= texts(parts@));
        },
        _ => {
            let ghost before = texts(parts@);
            parts.push(from_chars_range(&s, start, n));
            assert(texts(parts@) =~= before.push(s@.subrange(start as int, n as int)));
        },
    }
    parts
}

/// What stands between the quotes of a quoted text, from position `pos` on:
/// a backslash is left out, and a quote after a backslash is taken; a quote
/// after anything else ends the text.
pub open spec fn unquoted_from(s: Seq<char>, pos: int, escaped: bool) -> Seq<char>
    decreases s.len() - pos,
{
    if pos < 0 || pos >= s.len() {
        Seq::empty()
    } else {
        let c = s[pos];
        if c == '\\' {
            unquoted_from(s, pos + 1, true)
        } else if c == '"' {
            if escaped {
                seq!['"'] + unquoted_from(s, pos + 1, false)
            } else {
                Seq::empty()
            }
        } else {
            seq![c] + unquoted_from(s, pos + 1, false)
        }
    }
}

/// A text without its quotes: a text that does not begin with a quote is
/// itself; of a quoted text, what stands between the quotes.
pub open spec fn unquoted(s: Seq<char>) -> Seq<char> {
    if s.len() > 0 && s[0] == '"' {
        unquoted_from(s, 1, false)
    } else {
        s
    }
}

/// Takes the quotes off a part of a command line.
pub fn drop_quotes(raw_content: &str) -> (r: String)
    ensures
        r@ == unquoted(raw_content@),
{
    let s = to_chars(raw_content);
    let n = s.len();
    if n == 0 || s[0] != '"' {
        return raw_content.to_owned();
    }
    let mut ret = String::new();
    let mut pos: usize = 1;
    let mut escaped = false;
    assert(ret@ + unquoted_from(s@, 1, false) =~= unquoted_from(s@, 1, false));
    while pos < n
        invariant
            n == s.len(),
            s@ == raw_content@,
            1 <= pos <= n,
            unquoted(s@) == ret@ + unquoted_from(s@, pos as int, escaped),
        decreases n - pos,
    {
        let c = s[pos];
        let ghost before = ret@;
        if c == '\\' {
            escaped = true;
        } else if c == '"' {
            if escaped {
                ret.push('"');
                escaped = false;
                assert(before + (seq!['"'] + unquoted_from(s@, pos + 1, false)) =~= before.push(
                    '"',
                ) + unquoted_from(s@, pos + 1, false));
            } else {
                assert(before + Seq::<char>::empty() =~= before);
                return ret;
            }
        } else {
            ret.push(c);
            escaped = false;
            assert(before + (seq![c] + unquoted_from(s@, pos + 1, false)) =~= before.push(c)
                + unquoted_from(s@, pos + 1, false));
        }
        pos = pos + 1;
    }
    assert(ret@ + Seq::<char>::empty() =~= ret@);
    ret
}

/// The lines that are no comments, one after the other without anything
/// between them. A comment is a line that begins with `//` after white
/// space.
pub open spec fn without_comment_lines(lines: Seq<Seq<char>>) -> Seq<char>
    decreases lines.len(),
{
    if lines.len() == 0 {
        Seq::empty()
    } else {
        without_comment_lines(lines.drop_last()) + if "//"@.is_prefix_of(trimmed(lines.last())) {
            Seq::empty()
        } else {
            lines.last()
        }
    }
}

/// The text of an argument file without its comment lines.
pub fn strip_comment_lines(text: &str) -> (r: String)
    ensures
        r@ == without_comment_lines(split(text@, "\n"@)),
{
    let lines = split_text(text, "\n");
    let ghost all = texts(lines@);
    let mut out = String::new();
    let mut i: usize = 0;
    assert(all.take(0) =~= Seq::empty());
    while i < lines.len()
        invariant
            i <= lines.len(),
            all == texts(lines@),
            out@ == without_comment_lines(all.take(i as int)),
        decreases lines.len() - i,
    {
        proof {
            assert(all.take(i + 1).drop_last() =~= all.take(i as int));
            assert(all.take(i + 1).last() == lines@[i as int]@);
        }
        let t = trim(lines[i].as_str());
        if !starts_with(t.as_str(), "//") {
            out.append(lines[i].as_str());
        } else {
            assert(out@ + Seq::<char>::empty() =~= out@);
        }
        i = i + 1;
    }
    assert(all.take(lines.len() as int) =~= all);
    out
}

/// What an argument file holds: the JSON document that is left when the
/// comment lines are taken out.
pub fn load_json_arguments(text: &str) -> (r: Result<Json, NahError>)
    ensures
        match json_parse(without_comment_lines(split(text@, "\n"@))) {
            Some(j) => r matches Ok(x) && x@ == j,
            None => r matches Err(e) && e@ == invalid_argument(
                "Provided argument is invalid in JSON Format"@,
                None,
            ),
        },
{
    let stripped = strip_comment_lines(text);
    match parse(stripped.as_str()) {
        Ok(j) => Ok(j),
        Err(_) => Err(
            NahError::invalid_argument_error("Provided argument is invalid in JSON Format", None),
        ),
    }
}

/// The lines that do not begin with `#`, each with a newline after it.
pub open spec fn without_hash_lines(lines: Seq<Seq<char>>) -> Seq<char>
    decreases lines.len(),
{
    if lines.len() == 0 {
        Seq::empty()
    } else {
        without_hash_lines(lines.drop_last()) + if "#"@.is_prefix_of(lines.last()) {
            Seq::empty()
        } else {
            lines.last() + "\n"@
        }
    }
}

/// The message that a user drafted in a file: the lines of the file that do
/// not begin with `#`.
pub fn user_message_from_draft(text: &str) -> (r: String)
    ensures
        r@ == without_hash_lines(split(text@, "\n"@)),
{
    let lines = split_text(text, "\n");
    let ghost all = texts(lines@);
    let mut out = String::new();
    let mut i: usize = 0;
    assert(all.take(0) =~= Seq::empty());
    while i < lines.len()
        invariant
            i <= lines.len(),
            all == texts(lines@),
            out@ == without_hash_lines(all.take(i as int)),
        decreases lines.len() - i,
    {
        proof {
            assert(all.take(i + 1).drop_last() =~= all.take(i as int));
            assert(all.take(i + 1).last() == lines@[i as int]@);
        }
        if !starts_with(lines[i].as_str(), "#") {
            let ghost before = out@;
            out.append(lines[i].as_str());
            out.append("\n");
            assert(out@ =~= before + (lines@[i as int]@ + "\n"@));
        } else {
            assert(out@ + Seq::<char>::empty() =~= out@);
        }
        i = i + 1;
    }
    assert(all.take(lines.len() as int) =~= all);
    out
}

/// The name of the file in which the arguments of a call are edited.
pub fn argument_file_name(name: &str) -> (r: String)
    ensures
        r@ == ".nah_req."@ + name@ + ".args.js"@,
{
    concat3(".nah_req.", name, ".args.js")
}

/// The lines of the template for the arguments of a prompt, up to argument
/// `n`: one line for each argument, with a comma between two lines.
pub open spec fn argument_lines(args: Seq<MCPPromptArgument>, n: int) -> Seq<char>
    decreases n,
{
    if n <= 0 {
        Seq::empty()
    } else {
        argument_lines(args, n - 1) + "    \""@ + args[n - 1].name@
            + "\": \"<FILL ARGUMENT HERE>\""@ + if n == args.len() {
            "\n"@
        } else {
            ",\n"@
        }
    }
}

/// The template that a user fills with the arguments of a prompt.
pub open spec fn prompt_template(args: Seq<MCPPromptArgument>) -> Seq<char> {
    "// Please fill arguments for prompt call here in JSON format \n// Lines starts with '//' will be removed\n"@
        + "{\n"@ + argument_lines(args, args.len() as int) + "}\n"@
}

/// The template that a user fills with the arguments of a prompt.
pub fn prompt_argument_template(args: &Vec<MCPPromptArgument>) -> (r: String)
    ensures
        r@ == prompt_template(args@),
{
    let mut out =
        "// Please fill arguments for prompt call here in JSON format \n// Lines starts with '//' will be removed\n".to_owned();
    out.append("{\n");
    let ghost head = out@;
    let mut i: usize = 0;
    assert(head + argument_lines(args@, 0) =~= head);
    while i < args.len()
        invariant
            i <= args.len(),
            out@ == head + argument_lines(args@, i as int),
        decreases args.len() - i,
    {
        let ghost before = out@;
        out.append("    \"");
        out.append(args[i].name.as_str());
        out.append("\": \"<FILL ARGUMENT HERE>\"");
        if i + 1 != args.len() {
            out.append(",\n");
        } else {
            out.append("\n");
        }
        assert(out@ =~= head + argument_lines(args@, i + 1));
        i = i + 1;
    }
    out.append("}\n");
    assert(out@ =~= prompt_template(args@));
    out
}

/// The template that a user fills with the arguments of a tool call: two
/// lines of comment and the template of the tool's input.
pub fn tool_argument_template(template: &str) -> (r: String)
    ensures
        r@ == "// Please fill arguments for tool call here in JSON format. \n// Lines starts with '//' will be removed\n"@
            + template@,
{
    let mut out =
        "// Please fill arguments for tool call here in JSON format. \n// Lines starts with '//' will be removed\n".to_owned();
    out.append(template);
    out
}

/// The arguments of a prompt that the members of an object give: each
/// member's key with its text, or with the empty text where the member is no
/// text.
pub open spec fn text_pairs(members: Seq<(String, Json)>) -> Seq<(Seq<char>, Seq<char>)> {
    Seq::new(
        members.len(),
        |i: int|
            (
                members[i].0@,
                match members[i].1@ {
                    JsonView::String(t) => t,
                    _ => Seq::empty(),
                },
            ),
    )
}

/// The pairs of a list of arguments as texts.
pub open spec fn pair_views(pairs: Seq<(String, String)>) -> Seq<(Seq<char>, Seq<char>)> {
    Seq::new(pairs.len(), |i: int| (pairs[i].0@, pairs[i].1@))
}

/// Reads the arguments of a prompt from the JSON document of an argument
/// file, which has to be an object.
pub fn prompt_arguments(value: &Json) -> (r: Result<Vec<(String, String)>, NahError>)
    ensures
        match value {
            Json::Object(members) => r matches Ok(pairs) && pair_views(pairs@) == text_pairs(
                members@,
            ),
            _ => r matches Err(e) && e@ == invalid_argument(
                "Arguments should be a JSON Object!"@,
                None,
            ),
        },
{
    match value {
        Json::Object(members) => {
            let mut pairs: Vec<(String, String)> = Vec::new();
            let mut i: usize = 0;
            while i < members.len()
                invariant
                    i <= members.len(),
                    pairs.len() == i,
                    forall|k: int| 0 <= k < i ==> pair_views(pairs@)[k] == text_pairs(members@)[k],
                decreases members.len() - i,
            {
                let text = match &members[i].1 {
                    Json::String(t) => t.clone(),
                    _ => String::new(),
                };
                pairs.push((members[i].0.clone(), text));
                i = i + 1;
            }
            assert(pair_views(pairs@) =~= text_pairs(members@));
            Ok(pairs)
        },
        _ => Err(NahError::invalid_argument_error("Arguments should be a JSON Object!", None)),
    }
}

/// Whether a user's answer to a question is consent: `y` or `Y`, with or
/// without white space around it.
pub fn is_consent(answer: &str) -> (r: bool)
    ensures
        r == (trimmed(answer@) == "y"@ || trimmed(answer@) == "Y"@),
{
    let t = trim(answer);
    crate::text::str_eq(t.as_str(), "y") || crate::text::str_eq(t.as_str(), "Y")
}

/// The prompt of the shell: the name of the current server in brackets,
/// where one is selected.
pub fn shell_prompt(current_server: &Option<String>) -> (r: String)
    ensures
        r@ == match current_server {
            Some(name) => "["@ + name@ + "] >> "@,
            None => ">> "@,
        },
{
    match current_server {
        Some(name) => concat3("[", name.as_str(), "] >> "),
        None => ">> ".to_owned(),
    }
}

} // verus!
