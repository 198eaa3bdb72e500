//! Chat: conversations and messages, and the stub model that answers a
//! prompt by echoing its words as a stream of tokens.
use vstd::prelude::*;

use crate::error::{lit, AppError};
use crate::text::{chars_of, push_char, push_chars};
use crate::validation::{char_is_whitespace, is_white};

verus! {

/// A conversation as listed.
pub struct ConversationDto {
    pub id: u128,
    pub title: String,
    pub model: String,
    pub created_at: i64,
    pub updated_at: i64,
}

/// A message as listed.
pub struct MessageDto {
    pub id: u128,
    pub role: String,
    pub content: String,
    pub created_at: i64,
}

/// `POST /conversations`.
pub struct CreateConversationInput {
    pub title: Option<String>,
    pub model: Option<String>,
}

/// `POST /conversations/{id}/messages`.
pub struct SendMessageInput {
    pub content: String,
}

/// The title and model of a new conversation: an empty title and the
/// service's default model unless given.
pub fn conversation_fields(input: CreateConversationInput, default_model: String) -> (r: (String, String))
    ensures
        r.0@ == match input.title {
            Some(t) => t@,
            None => Seq::empty(),
        },
        r.1@ == match input.model {
            Some(m) => m@,
            None => default_model@,
        },
{
    let title = match input.title {
        Some(t) => t,
        None => String::new(),
    };
    let model = match input.model {
        Some(m) => m,
        None => default_model,
    };
    (title, model)
}

/// A conversation is reached by its owner only; to anyone else it does not
/// exist.
pub fn check_owner(owner_id: u128, uid: u128) -> (r: Result<(), AppError>)
    ensures
        owner_id == uid ==> r is Ok,
        owner_id != uid ==> r == Err::<(), AppError>(AppError::NotFound),
{
    if owner_id != uid {
        Err(AppError::NotFound)
    } else {
        Ok(())
    }
}

/// The words of `s` after the word `cur` in progress: maximal runs of
/// characters that are not whitespace, in order.
pub open spec fn words_from(s: Seq<char>, cur: Seq<char>) -> Seq<Seq<char>>
    decreases s.len(),
{
    if s.len() == 0 {
        if cur.len() == 0 {
            Seq::empty()
        } else {
            seq![cur]
        }
    } else if is_white(s[0]) {
        (if cur.len() == 0 {
            Seq::empty()
        } else {
            seq![cur]
        }) + words_from(s.drop_first(), Seq::empty())
    } else {
        words_from(s.drop_first(), cur.push(s[0]))
    }
}

/// `str::split_whitespace`: the maximal runs of non-whitespace characters.
pub open spec fn words(s: Seq<char>) -> Seq<Seq<char>> {
    words_from(s, Seq::empty())
}

/// The stub model's tokens for `prompt`: `(empty prompt)` when it has no
/// word, else `You said: ` and then each word followed by a space.
pub open spec fn response_tokens(prompt: Seq<char>) -> Seq<Seq<char>> {
    let ws = words(prompt);
    if ws.len() == 0 {
        seq!["(empty prompt)"@]
    } else {
        seq!["You said: "@] + ws.map_values(|w: Seq<char>| w.push(' '))
    }
}

/// The characters of each string.
pub open spec fn texts(v: Seq<String>) -> Seq<Seq<char>> {
    v.map_values(|s: String| s@)
}

/// Splits `s` at whitespace, as `str::split_whitespace` does.
pub fn split_words(s: &str) -> (r: Vec<Vec<char>>)
    ensures
        r@.map_values(|w: Vec<char>| w@) == words(s@),
{
    let cs = chars_of(s);
    let n = cs.len();
    let mut out: Vec<Vec<char>> = Vec::new();
    let mut cur: Vec<char> = Vec::new();
    let mut i: usize = 0;
    assert(cs@.subrange(0, n as int) == s@);
    assert(out@.map_values(|w: Vec<char>| w@) == Seq::<Seq<char>>::empty());
    assert(Seq::<Seq<char>>::empty() + words(s@) == words(s@));
    while i < n
        invariant
            n == cs@.len(),
            cs@ == s@,
            i <= n,
            out@.map_values(|w: Vec<char>| w@) + words_from(cs@.subrange(i as int, n as int), cur@)
                == words(s@),
        decreases n - i,
    {
        let ghost rest = cs@.subrange(i as int, n as int);
        let ghost rest2 = cs@.subrange(i + 1, n as int);
        let ghost m0 = out@.map_values(|w: Vec<char>| w@);
        let ghost c0 = cur@;
        assert(rest.drop_first() == rest2);
        assert(rest[0] == cs@[i as int]);
        let c = cs[i];
        if char_is_whitespace(c) {
            if cur.len() > 0 {
                assert(words_from(rest, c0) == seq![c0] + words_from(rest2, Seq::empty()));
                let w = cur;
                out.push(w);
                assert(out@.map_values(|w: Vec<char>| w@) == m0 + seq![c0]);
                cur = Vec::new();
                assert(m0 + (seq![c0] + words_from(rest2, Seq::empty())) == (m0 + seq![c0])
                    + words_from(rest2, cur@));
            } else {
                assert(c0 =~= Seq::<char>::empty());
                assert(words_from(rest, c0) == Seq::<Seq<char>>::empty() + words_from(rest2, Seq::empty()));
                assert(Seq::<Seq<char>>::empty() + words_from(rest2, Seq::empty()) == words_from(
                    rest2,
                    Seq::empty(),
                ));
                assert(cur@ =~= Seq::<char>::empty());
            }
        } else {
            assert(words_from(rest, c0) == words_from(rest2, c0.push(c)));
            cur.push(c);
        }
        i = i + 1;
    }
    let ghost m0 = out@.map_values(|w: Vec<char>| w@);
    let ghost rest = cs@.subrange(n as int, n as int);
    assert(rest.len() == 0);
    if cur.len() > 0 {
        let ghost c0 = cur@;
        assert(words_from(rest, c0) == seq![c0]);
        let w = cur;
        out.push(w);
        assert(out@.map_values(|w: Vec<char>| w@) == m0 + seq![c0]);
    } else {
        assert(words_from(rest, cur@) == Seq::<Seq<char>>::empty());
        assert(m0 + Seq::<Seq<char>>::empty() == m0);
    }
    out
}

/// The stub model: echoes the prompt word by word (see `response_tokens`).
pub fn synthesize_response(prompt: &str) -> (r: Vec<String>)
    ensures
        texts(r@) == response_tokens(prompt@),
{
    let ws = split_words(prompt);
    let ghost wv = ws@.map_values(|w: Vec<char>| w@);
    if ws.len() == 0 {
        let mut out: Vec<String> = Vec::new();
        out.push(lit("(empty prompt)"));
        assert(texts(out@) == seq!["(empty prompt)"@]);
        return out;
    }
    let mut out: Vec<String> = Vec::new();
    out.push(lit("You said: "));
    let n = ws.len();
    for i in 0..n
        invariant
            n == ws@.len(),
            wv == ws@.map_values(|w: Vec<char>| w@),
            texts(out@) == seq!["You said: "@] + wv.subrange(0, i as int).map_values(
                |w: Seq<char>| w.push(' '),
            ),
    {
        let mut t = String::new();
        push_chars(&mut t, &ws[i]);
        push_char(&mut t, ' ');
        let ghost before = out@;
        out.push(t);
        assert(wv.subrange(0, i + 1) == wv.subrange(0, i as int).push(ws@[i as int]@));
        assert(texts(out@) == texts(before).push(t@));
    }
    assert(wv.subrange(0, n as int) == wv);
    out
}

/// The concatenation of the tokens.
pub open spec fn joined(tokens: Seq<Seq<char>>) -> Seq<char>
    decreases tokens.len(),
{
    if tokens.len() == 0 {
        Seq::empty()
    } else {
        joined(tokens.drop_last()) + tokens.last()
    }
}

/// The assistant's reply as stored at the end of the stream: the streamed
/// tokens, concatenated.
pub fn reply_text(tokens: &Vec<String>) -> (r: String)
    ensures
        r@ == joined(texts(tokens@)),
{
    let mut acc = String::new();
    let n = tokens.len();
    for i in 0..n
        invariant
            n == tokens@.len(),
            acc@ == joined(texts(tokens@.subrange(0, i as int))),
    {
        assert(texts(tokens@.subrange(0, i + 1)).drop_last() == texts(tokens@.subrange(0, i as int)));
        acc.append(tokens[i].as_str());
    }
    assert(tokens@.subrange(0, n as int) == tokens@);
    acc
}

/// A prompt without words is answered with `(empty prompt)` alone; any other
/// prompt is answered with `You said: ` and one token per word.
pub proof fn lemma_response_shape(prompt: Seq<char>)
    ensures
        words(prompt).len() == 0 ==> response_tokens(prompt) == seq!["(empty prompt)"@],
        words(prompt).len() > 0 ==> response_tokens(prompt).len() == words(prompt).len() + 1
            && response_tokens(prompt)[0] == "You said: "@,
{
}

proof fn lemma_words_from_clean(s: Seq<char>, cur: Seq<char>)
    requires
        forall|k: int| 0 <= k < cur.len() ==> !is_white(#[trigger] cur[k]),
    ensures
        forall|i: int| 0 <= i < words_from(s, cur).len() ==> (#[trigger] words_from(s, cur)[i]).len() > 0,
        forall|i: int, k: int|
            0 <= i < words_from(s, cur).len() && 0 <= k < words_from(s, cur)[i].len() ==> !is_white(
                #[trigger] words_from(s, cur)[i][k],
            ),
    decreases s.len(),
{
    if s.len() == 0 {
        if cur.len() > 0 {
            assert(words_from(s, cur) == seq![cur]);
            assert forall|i: int, k: int|
                0 <= i < words_from(s, cur).len() && 0 <= k < words_from(s, cur)[i].len() implies !is_white(
                    #[trigger] words_from(s, cur)[i][k],
                ) by {
                assert(i == 0);
                assert(words_from(s, cur)[i] == cur);
            }
        }
    } else if is_white(s[0]) {
        lemma_words_from_clean(s.drop_first(), Seq::empty());
        let head: Seq<Seq<char>> = if cur.len() == 0 {
            Seq::empty()
        } else {
            seq![cur]
        };
        let rest = words_from(s.drop_first(), Seq::empty());
        assert(words_from(s, cur) == head + rest);
        assert forall|i: int| 0 <= i < words_from(s, cur).len() implies (#[trigger] words_from(s, cur)[i]).len() > 0 by {
            if i < head.len() {
                assert(words_from(s, cur)[i] == cur);
            } else {
                assert(words_from(s, cur)[i] == rest[i - head.len()]);
            }
        }
        assert forall|i: int, k: int|
            0 <= i < words_from(s, cur).len() && 0 <= k < words_from(s, cur)[i].len() implies !is_white(
                #[trigger] words_from(s, cur)[i][k],
            ) by {
            if i < head.len() {
                assert(words_from(s, cur)[i] == cur);
            } else {
                assert(words_from(s, cur)[i] == rest[i - head.len()]);
            }
        }
    } else {
        let c2 = cur.push(s[0]);
        assert forall|k: int| 0 <= k < c2.len() implies !is_white(#[trigger] c2[k]) by {
            if k < cur.len() {
                assert(c2[k] == cur[k]);
            }
        }
        lemma_words_from_clean(s.drop_first(), c2);
        assert(words_from(s, cur) == words_from(s.drop_first(), c2));
    }
}

proof fn lemma_words_from_single(s: Seq<char>, cur: Seq<char>)
    requires
        forall|k: int| 0 <= k < s.len() ==> !is_white(#[trigger] s[k]),
        cur.len() + s.len() > 0,
    ensures
        words_from(s, cur) == seq![cur + s],
    decreases s.len(),
{
    if s.len() == 0 {
        assert(cur + s =~= cur);
    } else {
        assert(!is_white(s[0]));
        assert forall|k: int| 0 <= k < s.drop_first().len() implies !is_white(#[trigger] s.drop_first()[k]) by {
            assert(s.drop_first()[k] == s[k + 1]);
        }
        lemma_words_from_single(s.drop_first(), cur.push(s[0]));
        assert(cur.push(s[0]) + s.drop_first() =~= cur + s);
    }
}

/// Words: each is non-empty and holds no whitespace; a text without
/// whitespace is one word, itself; a text of whitespace only has none.
pub proof fn lemma_words_rule(s: Seq<char>)
    ensures
        forall|i: int| 0 <= i < words(s).len() ==> (#[trigger] words(s)[i]).len() > 0,
        forall|i: int, k: int| 0 <= i < words(s).len() && 0 <= k < words(s)[i].len() ==> !is_white(#[trigger] words(s)[i][k]),
        (s.len() > 0 && forall|k: int| 0 <= k < s.len() ==> !is_white(#[trigger] s[k])) ==> words(s) == seq![s],
{
    lemma_words_from_clean(s, Seq::empty());
    if s.len() > 0 && forall|k: int| 0 <= k < s.len() ==> !is_white(#[trigger] s[k]) {
        lemma_words_from_single(s, Seq::empty());
        assert(Seq::<char>::empty() + s =~= s);
    }
}

} // verus!
