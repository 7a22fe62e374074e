//! The language map: a fixed, finite table from the language tag of a fenced
//! code block to the name of the highlighter grammar that renders it.
//!
//! A tag absent from the table is an error, never a silent fallback: the
//! renderer must fail loudly naming the unknown tag, so that a missing
//! mapping surfaces at build time instead of shipping wrong syntax colors.

use vstd::prelude::*;
use crate::strutil::str_eq;

verus! {

/// The grammar name for a language tag, or `None` when the tag is not in the
/// table. The empty tag (an untagged or indented code block) maps to plain
/// text.
pub open spec fn grammar_for(tag: Seq<char>) -> Option<Seq<char>> {
    if tag == ""@ {
        Option::Some("Plain Text"@)
    } else if tag == "bash"@ {
        Option::Some("Shell-Unix-Generic"@)
    } else if tag == "javascript"@ {
        Option::Some("JavaScript"@)
    } else if tag == "html"@ {
        Option::Some("HTML"@)
    } else if tag == "json"@ {
        Option::Some("JSON"@)
    } else if tag == "toml"@ {
        Option::Some("Plain Text"@)
    } else if tag == "rust"@ {
        Option::Some("Rust"@)
    } else if tag == "css"@ {
        Option::Some("CSS"@)
    } else if tag == "python"@ {
        Option::Some("Python"@)
    } else {
        Option::None
    }
}

/// Look a language tag up in the table.
pub fn lookup_language(tag: &str) -> (r: Option<String>)
    ensures
        r matches Some(g) ==> grammar_for(tag@) == Option::Some(g@),
        r is Some <==> grammar_for(tag@) is Some,
{
    proof {
        reveal_strlit("");
        reveal_strlit("bash");
        reveal_strlit("javascript");
        reveal_strlit("html");
        reveal_strlit("json");
        reveal_strlit("toml");
        reveal_strlit("rust");
        reveal_strlit("css");
        reveal_strlit("python");
    }
    if str_eq(tag, "") {
        Some(String::from_str("Plain Text"))
    } else if str_eq(tag, "bash") {
        Some(String::from_str("Shell-Unix-Generic"))
    } else if str_eq(tag, "javascript") {
        Some(String::from_str("JavaScript"))
    } else if str_eq(tag, "html") {
        Some(String::from_str("HTML"))
    } else if str_eq(tag, "json") {
        Some(String::from_str("JSON"))
    } else if str_eq(tag, "toml") {
        Some(String::from_str("Plain Text"))
    } else if str_eq(tag, "rust") {
        Some(String::from_str("Rust"))
    } else if str_eq(tag, "css") {
        Some(String::from_str("CSS"))
    } else if str_eq(tag, "python") {
        Some(String::from_str("Python"))
    } else {
        None
    }
}

/// The language table as explicit tag/grammar pairs, in a fixed order.
pub fn build_language_map() -> (r: Vec<(String, String)>)
    ensures
        r@.len() == 9,
        forall|i: int|
            0 <= i < r@.len() ==> grammar_for(#[trigger] r@[i].0@) == Option::Some(r@[i].1@),
        r@[0].0@ == ""@,
        r@[1].0@ == "bash"@,
        r@[2].0@ == "javascript"@,
        r@[3].0@ == "html"@,
        r@[4].0@ == "json"@,
        r@[5].0@ == "toml"@,
        r@[6].0@ == "rust"@,
        r@[7].0@ == "css"@,
        r@[8].0@ == "python"@,
{
    proof {
        reveal_strlit("");
        reveal_strlit("bash");
        reveal_strlit("javascript");
        reveal_strlit("html");
        reveal_strlit("json");
        reveal_strlit("toml");
        reveal_strlit("rust");
        reveal_strlit("css");
        reveal_strlit("python");
    }
    let mut map: Vec<(String, String)> = Vec::new();
    map.push((String::from_str(""), String::from_str("Plain Text")));
    map.push((String::from_str("bash"), String::from_str("Shell-Unix-Generic")));
    map.push((String::from_str("javascript"), String::from_str("JavaScript")));
    map.push((String::from_str("html"), String::from_str("HTML")));
    map.push((String::from_str("json"), String::from_str("JSON")));
    map.push((String::from_str("toml"), String::from_str("Plain Text")));
    map.push((String::from_str("rust"), String::from_str("Rust")));
    map.push((String::from_str("css"), String::from_str("CSS")));
    map.push((String::from_str("python"), String::from_str("Python")));
    proof {
        assert forall|i: int|
            0 <= i < map@.len() implies grammar_for(#[trigger] map@[i].0@) == Option::Some(
            map@[i].1@,
        ) by {
            if i == 0 {
                assert(map@[0].0@ == ""@);
                assert(map@[0].1@ == "Plain Text"@);
                assert(grammar_for(map@[0].0@) == Option::Some(map@[0].1@));
            } else if i == 1 {
                assert(map@[1].0@ == "bash"@);
                assert(map@[1].1@ == "Shell-Unix-Generic"@);
                assert("bash"@ != ""@);
                assert(grammar_for(map@[1].0@) == Option::Some(map@[1].1@));
            } else if i == 2 {
                assert(map@[2].0@ == "javascript"@);
                assert(map@[2].1@ == "JavaScript"@);
                assert("javascript"@ != ""@);
                assert("javascript"@ != "bash"@);
                assert(grammar_for(map@[2].0@) == Option::Some(map@[2].1@));
            } else if i == 3 {
                assert(map@[3].0@ == "html"@);
                assert(map@[3].1@ == "HTML"@);
                assert("html"@ != ""@);
                assert("html"@[0] == 'h');
                assert("bash"@[0] == 'b');
                assert("html"@ != "bash"@);
                assert("html"@ != "javascript"@);
                assert(grammar_for(map@[3].0@) == Option::Some(map@[3].1@));
            } else if i == 4 {
                assert(map@[4].0@ == "json"@);
                assert(map@[4].1@ == "JSON"@);
                assert("json"@ != ""@);
                assert("json"@[0] == 'j');
                assert("bash"@[0] == 'b');
                assert("json"@ != "bash"@);
                assert("json"@ != "javascript"@);
                assert("json"@[0] == 'j');
                assert("html"@[0] == 'h');
                assert("json"@ != "html"@);
                assert(grammar_for(map@[4].0@) == Option::Some(map@[4].1@));
            } else if i == 5 {
                assert(map@[5].0@ == "toml"@);
                assert(map@[5].1@ == "Plain Text"@);
                assert("toml"@ != ""@);
                assert("toml"@[0] == 't');
                assert("bash"@[0] == 'b');
                assert("toml"@ != "bash"@);
                assert("toml"@ != "javascript"@);
                assert("toml"@[0] == 't');
                assert("html"@[0] == 'h');
                assert("toml"@ != "html"@);
                assert("toml"@[0] == 't');
                assert("json"@[0] == 'j');
                assert("toml"@ != "json"@);
                assert(grammar_for(map@[5].0@) == Option::Some(map@[5].1@));
            } else if i == 6 {
                assert(map@[6].0@ == "rust"@);
                assert(map@[6].1@ == "Rust"@);
                assert("rust"@ != ""@);
                assert("rust"@[0] == 'r');
                assert("bash"@[0] == 'b');
                assert("rust"@ != "bash"@);
                assert("rust"@ != "javascript"@);
                assert("rust"@[0] == 'r');
                assert("html"@[0] == 'h');
                assert("rust"@ != "html"@);
                assert("rust"@[0] == 'r');
                assert("json"@[0] == 'j');
                assert("rust"@ != "json"@);
                assert("rust"@[0] == 'r');
                assert("toml"@[0] == 't');
                assert("rust"@ != "toml"@);
                assert(grammar_for(map@[6].0@) == Option::Some(map@[6].1@));
            } else if i == 7 {
                assert(map@[7].0@ == "css"@);
                assert(map@[7].1@ == "CSS"@);
                assert("css"@ != ""@);
                assert("css"@ != "bash"@);
                assert("css"@ != "javascript"@);
                assert("css"@ != "html"@);
                assert("css"@ != "json"@);
                assert("css"@ != "toml"@);
                assert("css"@ != "rust"@);
                assert(grammar_for(map@[7].0@) == Option::Some(map@[7].1@));
            } else {
                assert(i == 8);
                assert(map@[8].0@ == "python"@);
                assert(map@[8].1@ == "Python"@);
                assert("python"@ != ""@);
                assert("python"@ != "bash"@);
                assert("python"@ != "javascript"@);
                assert("python"@ != "html"@);
                assert("python"@ != "json"@);
                assert("python"@ != "toml"@);
                assert("python"@ != "rust"@);
                assert("python"@ != "css"@);
                assert(grammar_for(map@[8].0@) == Option::Some(map@[8].1@));
            }
        }
    }
    map
}

} // verus!
