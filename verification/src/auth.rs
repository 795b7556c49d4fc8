//! Who may use the protected part of the interface.

use vstd::prelude::*;
use vstd::string::*;

use crate::json::{json_text, lemma_entry_value, opt_str_view, Fields, Json, JsonView};
use crate::text::{chars_of, same, trim, trimmed};

verus! {

/// Whether two characters are the same but for the case of ASCII letters.
pub open spec fn same_letter(c: char, lower: char) -> bool {
    c == lower || ('A' <= c <= 'Z' && c as u32 + 32 == lower as u32)
}

/// Whether `s` begins with the lower-case word, in whatever case its ASCII letters
/// are.
pub open spec fn begins_in_any_case(s: Seq<char>, word: Seq<char>) -> bool {
    s.len() >= word.len() && forall|i: int|
        0 <= i < word.len() ==> same_letter(#[trigger] s[i], word[i])
}

fn is_same_letter(c: char, lower: char) -> (r: bool)
    ensures
        r == same_letter(c, lower),
{
    c == lower || ('A' <= c && c <= 'Z' && c as u32 + 32 == lower as u32)
}

/// Whether `s` begins with the lower-case word, in whatever case its ASCII letters
/// are.
pub fn starts_in_any_case(s: &str, word: &str) -> (r: bool)
    ensures
        r == begins_in_any_case(s@, word@),
{
    let a = chars_of(s);
    let b = chars_of(word);
    if a.len() < b.len() {
        return false;
    }
    let mut i: usize = 0;
    while i < b.len()
        invariant
            i <= b@.len() <= a@.len(),
            a@ == s@,
            b@ == word@,
            forall|k: int| 0 <= k < i ==> same_letter(#[trigger] s@[k], word@[k]),
        decreases b@.len() - i,
    {
        if !is_same_letter(a[i], b[i]) {
            assert(!same_letter(s@[i as int], word@[i as int]));
            return false;
        }
        i = i + 1;
    }
    true
}

/// Whether `s` is the lower-case word, in whatever case its ASCII letters are.
pub open spec fn is_in_any_case(s: Seq<char>, word: Seq<char>) -> bool {
    s.len() == word.len() && begins_in_any_case(s, word)
}

/// Whether `s` is the lower-case word, in whatever case its ASCII letters are.
pub fn same_in_any_case(s: &str, word: &str) -> (r: bool)
    ensures
        r == is_in_any_case(s@, word@),
{
    s.unicode_len() == word.unicode_len() && starts_in_any_case(s, word)
}

/// The token that a request presents: that of its own header, or else that of a
/// `Bearer` authorisation, without the white space around it; nothing where it has
/// neither.
pub open spec fn presented_token(
    agent_token: Option<Seq<char>>,
    authorization: Option<Seq<char>>,
) -> Seq<char> {
    match agent_token {
        Some(t) => trimmed(t),
        None => match authorization {
            Some(a) => if begins_in_any_case(a, "bearer "@) {
                trimmed(a.skip(7))
            } else {
                Seq::empty()
            },
            None => Seq::empty(),
        },
    }
}

/// Whether a request is let through: every one where no token is configured, and
/// otherwise those that present the token.
pub open spec fn is_allowed(
    configured: Seq<char>,
    agent_token: Option<Seq<char>>,
    authorization: Option<Seq<char>>,
) -> bool {
    let expected = trimmed(configured);
    expected.len() == 0 || presented_token(agent_token, authorization) == expected
}

/// Whether a request is let through, given the token that is configured, and the
/// values of the headers `X-Agent-Token` and `Authorization`.
pub fn verify_agent_token(
    configured: &str,
    agent_token: Option<&str>,
    authorization: Option<&str>,
) -> (r: bool)
    ensures
        r == is_allowed(configured@, opt_str_view(agent_token), opt_str_view(authorization)),
{
    let expected = trim(configured);
    if expected.is_empty() {
        return true;
    }
    proof {
        reveal_strlit("bearer ");
        reveal_strlit("");
    }
    let presented = match agent_token {
        Some(t) => trim(t),
        None => match authorization {
            Some(a) => if starts_in_any_case(a, "bearer ") {
                let n = a.unicode_len();
                assert(a@.subrange(7, n as int) =~= a@.skip(7));
                trim(a.substring_char(7, n))
            } else {
                assert(""@ =~= Seq::<char>::empty());
                ""
            },
            None => {
                assert(""@ =~= Seq::<char>::empty());
                ""
            },
        },
    };
    same(presented, expected)
}

/// The answer to a request that is not let through.
pub fn unauthorized_report() -> (r: Json)
    ensures
        r@ == JsonView::Object(seq![("detail"@, JsonView::Str("Invalid agent token"@))]),
{
    let mut fields = Fields::new();
    fields.put("detail", json_text("Invalid agent token"));
    assert(fields@ =~= seq![("detail"@, JsonView::Str("Invalid agent token"@))]);
    fields.object()
}

/// Without a configured token every request is let through; with one, a request that
/// presents nothing is not, one that presents the token in its own header or as a
/// `Bearer` authorisation is, and the header of its own comes before the authorisation.
pub proof fn law_access(
    configured: Seq<char>,
    agent_token: Option<Seq<char>>,
    authorization: Option<Seq<char>>,
)
    ensures
        trimmed(configured).len() == 0 ==> is_allowed(configured, agent_token, authorization),
        trimmed(configured).len() > 0 ==> !is_allowed(configured, None, None),
        agent_token is Some ==> is_allowed(configured, agent_token, authorization) == is_allowed(
            configured,
            agent_token,
            None,
        ),
        is_allowed(configured, Some(configured), authorization),
        is_allowed(configured, None, Some("Bearer "@ + configured)),
{
    let presented = "Bearer "@ + configured;
    reveal_strlit("Bearer ");
    reveal_strlit("bearer ");
    assert(presented.skip(7) =~= configured);
    assert forall|i: int| 0 <= i < 7 implies same_letter(
        #[trigger] presented[i],
        "bearer "@[i],
    ) by {
        assert(presented[i] == "Bearer "@[i]);
    }
    assert(begins_in_any_case(presented, "bearer "@));
}

/// With a configured token a request is let through exactly where it presents that token:
/// in the header of its own; or, without that header, behind the word `Bearer`, in whatever
/// case it is written. An authorisation of any other kind presents nothing. White space
/// around a token does not matter, and nothing else is overlooked.
pub proof fn law_token_asked(configured: Seq<char>, token: Seq<char>, authorization: Option<Seq<char>>)
    requires
        trimmed(configured).len() > 0,
    ensures
        is_allowed(configured, Some(token), authorization) <==> trimmed(token) == trimmed(
            configured,
        ),
        is_allowed(configured, None, Some("Bearer "@ + token)) <==> trimmed(token) == trimmed(
            configured,
        ),
        is_allowed(configured, None, Some("bearer "@ + token)) <==> trimmed(token) == trimmed(
            configured,
        ),
        is_allowed(configured, None, Some("BEARER "@ + token)) <==> trimmed(token) == trimmed(
            configured,
        ),
        token.len() < 7 || (token[0] != 'b' && token[0] != 'B') || token[6] != ' ' ==> !is_allowed(
            configured,
            None,
            Some(token),
        ),
        !is_allowed(configured, None, None),
{
    reveal_strlit("Bearer ");
    reveal_strlit("bearer ");
    reveal_strlit("BEARER ");
    let word = "bearer "@;
    assert(word.len() == 7);
    let a = "Bearer "@ + token;
    let b = "bearer "@ + token;
    let c = "BEARER "@ + token;
    assert(a.skip(7) =~= token);
    assert(b.skip(7) =~= token);
    assert(c.skip(7) =~= token);
    assert forall|i: int| 0 <= i < 7 implies same_letter(#[trigger] a[i], word[i]) by {
        assert(a[i] == "Bearer "@[i]);
    }
    assert forall|i: int| 0 <= i < 7 implies same_letter(#[trigger] b[i], word[i]) by {
        assert(b[i] == "bearer "@[i]);
    }
    assert forall|i: int| 0 <= i < 7 implies same_letter(#[trigger] c[i], word[i]) by {
        assert(c[i] == "BEARER "@[i]);
    }
    assert(begins_in_any_case(a, word) && begins_in_any_case(b, word) && begins_in_any_case(
        c,
        word,
    ));
    if token.len() >= 7 && begins_in_any_case(token, word) {
        assert(same_letter(token[0], word[0]));
        assert(same_letter(token[6], word[6]));
    }
}

/// What a refused request is answered says that the token is not valid.
pub proof fn law_refusal(r: Json)
    requires
        call_ensures(unauthorized_report, (), r),
    ensures
        r@.get("detail"@) == Some(JsonView::Str("Invalid agent token"@)),
{
    lemma_entry_value(r@->Object_0, "detail"@, 0);
}

} // verus!
