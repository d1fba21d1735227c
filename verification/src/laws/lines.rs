//! What holds of the lines of the text protocol.

use vstd::prelude::*;
use crate::protocol::RequestText;
use crate::store::TextMap;
use crate::text::{
    delete_line,
    get_line,
    line_effect,
    line_response,
    parse_line,
    reply_text,
    request_line,
    set_line,
};
use crate::words::{
    is_word,
    lemma_words_after_space,
    lemma_words_after_word,
    lemma_words_from_shape,
    lemma_words_of_word,
    words,
};

verus! {

/// The words of a verb followed by one word.
proof fn lemma_words_of_two(verb: Seq<char>, a: Seq<char>)
    requires
        is_word(verb),
        is_word(a),
    ensures
        words(verb + seq![' '] + a) == seq![verb, a],
{
    let r1 = seq![' '] + a;
    lemma_words_of_word(a);
    lemma_words_after_space(' ', a);
    lemma_words_after_word(verb, r1);
    assert(verb + seq![' '] + a =~= verb + r1);
}

/// The words of a verb followed by two words.
proof fn lemma_words_of_three(verb: Seq<char>, a: Seq<char>, b: Seq<char>)
    requires
        is_word(verb),
        is_word(a),
        is_word(b),
    ensures
        words(verb + seq![' '] + a + seq![' '] + b) == seq![verb, a, b],
{
    let r3 = seq![' '] + b;
    lemma_words_of_word(b);
    lemma_words_after_space(' ', b);
    let r2 = a + r3;
    lemma_words_after_word(a, r3);
    let r1 = seq![' '] + r2;
    lemma_words_after_space(' ', r2);
    lemma_words_after_word(verb, r1);
    assert(verb + seq![' '] + a + seq![' '] + b =~= verb + r1);
}

/// The words of a verb followed by three words.
proof fn lemma_words_of_four(verb: Seq<char>, a: Seq<char>, b: Seq<char>, c: Seq<char>)
    requires
        is_word(verb),
        is_word(a),
        is_word(b),
        is_word(c),
    ensures
        words(verb + seq![' '] + a + seq![' '] + b + seq![' '] + c) == seq![verb, a, b, c],
{
    lemma_words_of_three(a, b, c);
    let r2 = a + seq![' '] + b + seq![' '] + c;
    let r1 = seq![' '] + r2;
    lemma_words_after_space(' ', r2);
    lemma_words_after_word(verb, r1);
    assert(verb + seq![' '] + a + seq![' '] + b + seq![' '] + c =~= verb + r1);
    assert(seq![verb] + seq![a, b, c] =~= seq![verb, a, b, c]);
}

/// The three verbs are words, and no two of them are the same.
proof fn lemma_verbs()
    ensures
        is_word("SET"@),
        is_word("GET"@),
        is_word("DELETE"@),
        "SET"@ != "GET"@,
        "SET"@ != "DELETE"@,
        "GET"@ != "DELETE"@,
{
    reveal_strlit("SET");
    reveal_strlit("GET");
    reveal_strlit("DELETE");
    assert("SET"@[0] == 'S' && "SET"@[1] == 'E' && "SET"@[2] == 'T');
    assert("GET"@[0] == 'G' && "GET"@[1] == 'E' && "GET"@[2] == 'T');
    assert("DELETE"@[0] == 'D' && "DELETE"@[1] == 'E' && "DELETE"@[2] == 'L' && "DELETE"@[3]
        == 'E' && "DELETE"@[4] == 'T' && "DELETE"@[5] == 'E');
}

/// Decoding undoes encoding: the line of a request stands for that request.
pub proof fn law_request_line_round_trip(request: RequestText)
    requires
        request_line(request) is Some,
    ensures
        parse_line(request_line(request)->0) == Some(request),
{
    lemma_verbs();
    match request {
        RequestText::Put { key, value } => {
            lemma_words_of_three("SET"@, key, value);
        },
        RequestText::Get { key } => {
            lemma_words_of_two("GET"@, key);
        },
        RequestText::Delete { key } => {
            lemma_words_of_two("DELETE"@, key);
        },
        RequestText::BatchPut { pairs } => {},
    }
}

/// On the wire, a read after a write gives what was written: once the line
/// `SET key value` was served, the line `GET key` is answered with `value`
/// and a line feed.
pub proof fn law_get_line_after_set_line(m: TextMap, key: Seq<char>, value: Seq<char>)
    requires
        is_word(key),
        is_word(value),
    ensures
        reply_text(line_response(line_effect(m, set_line(key, value)), get_line(key))) == value
            + "\n"@,
        reply_text(line_response(m, set_line(key, value))) == "Value set successfully\n"@,
{
    law_request_line_round_trip(RequestText::Put { key, value });
    law_request_line_round_trip(RequestText::Get { key });
}

/// On the wire, a read after a delete finds nothing: once the line
/// `DELETE key` was served, the line `GET key` is answered with
/// `Key not found`, whether or not the key was there.
pub proof fn law_get_line_after_delete_line(m: TextMap, key: Seq<char>)
    requires
        is_word(key),
    ensures
        reply_text(line_response(line_effect(m, delete_line(key)), get_line(key)))
            == "Key not found\n"@,
        reply_text(line_response(m, delete_line(key))) == "Key deleted\n"@,
{
    law_request_line_round_trip(RequestText::Delete { key });
    law_request_line_round_trip(RequestText::Get { key });
}

/// A line that is no request changes nothing and is answered with
/// `Unsupported command`.
pub proof fn law_malformed_line_changes_nothing(m: TextMap, line: Seq<char>)
    requires
        parse_line(line) is None,
    ensures
        line_effect(m, line) == m,
        reply_text(line_response(m, line)) == "Unsupported command\n"@,
{
}

/// A line with too few words is no request: every verb needs a key, and
/// `SET` needs a value too.
pub proof fn law_missing_words_are_malformed(line: Seq<char>)
    requires
        words(line).len() < 2 || (words(line).len() == 2 && words(line)[0] == "SET"@),
    ensures
        parse_line(line) is None,
{
    lemma_verbs();
}

/// A line with too many words is no request: no verb takes more than a key
/// and a value, and only `SET` takes a value.
pub proof fn law_extra_words_are_malformed(line: Seq<char>)
    requires
        words(line).len() > 3 || (words(line).len() == 3 && words(line)[0] != "SET"@),
    ensures
        parse_line(line) is None,
{
}

/// A line is a request exactly when it is a verb with the words it takes:
/// `SET` with a key and a value, `GET` or `DELETE` with a key.
pub proof fn law_requests_have_exact_arity(line: Seq<char>)
    ensures
        parse_line(line) is Some <==> ({
            let w = words(line);
            ||| w.len() == 3 && w[0] == "SET"@
            ||| w.len() == 2 && (w[0] == "GET"@ || w[0] == "DELETE"@)
        }),
{
    lemma_verbs();
}

/// One word too many makes a request line malformed: `SET key value` is a
/// request, and the same line with one more word behind it is none.
pub proof fn law_one_word_too_many(key: Seq<char>, value: Seq<char>, extra: Seq<char>)
    requires
        is_word(key),
        is_word(value),
        is_word(extra),
    ensures
        parse_line(set_line(key, value)) is Some,
        parse_line(set_line(key, value) + seq![' '] + extra) is None,
        parse_line(get_line(key) + seq![' '] + extra) is None,
        parse_line(delete_line(key) + seq![' '] + extra) is None,
{
    lemma_verbs();
    lemma_words_of_three("SET"@, key, value);
    lemma_words_of_four("SET"@, key, value, extra);
    lemma_words_of_three("GET"@, key, extra);
    lemma_words_of_three("DELETE"@, key, extra);
}

/// Keys and values that arrive in a line are words: they are never empty
/// and hold no white space. The text protocol has no batches.
pub proof fn law_parsed_keys_are_words(line: Seq<char>)
    requires
        parse_line(line) is Some,
    ensures
        match parse_line(line)->0 {
            RequestText::Put { key, value } => is_word(key) && is_word(value),
            RequestText::Get { key } => is_word(key),
            RequestText::Delete { key } => is_word(key),
            RequestText::BatchPut { pairs } => false,
        },
{
    lemma_words_from_shape(line, 0, 1);
    if words(line).len() == 3 {
        lemma_words_from_shape(line, 0, 2);
    }
}

/// A verb alone is no request.
pub proof fn law_verb_alone_is_malformed()
    ensures
        parse_line("SET"@) is None,
        parse_line("GET"@) is None,
        parse_line("DELETE"@) is None,
{
    lemma_verbs();
    lemma_words_of_word("SET"@);
    lemma_words_of_word("GET"@);
    lemma_words_of_word("DELETE"@);
}

} // verus!
