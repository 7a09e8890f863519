use crate::text::{
    chars_of, decimal_digits, decimal_value, digit_of, is_ascii_digit, is_digit, push_decimal,
};
use std::collections::HashSet;
use vstd::prelude::*;

verus! {

broadcast use vstd::std_specs::hash::group_hash_axioms;

/// Where the digits of a mention token that starts at `start` begin: behind `<@`, or behind
/// `<@!` where the exclamation mark is there.
pub open spec fn digits_start(text: Seq<char>, start: int) -> int {
    if start + 2 < text.len() && text[start + 2] == '!' {
        start + 3
    } else {
        start + 2
    }
}

/// Whether `text[start..end]` is a mention token: `<@`, an optional `!`, one or more ASCII
/// digits, and `>`.
pub open spec fn is_mention(text: Seq<char>, start: int, end: int) -> bool {
    let first = digits_start(text, start);
    &&& 0 <= start
    &&& end <= text.len()
    &&& first < end - 1
    &&& text[start] == '<'
    &&& text[start + 1] == '@'
    &&& forall|i: int| first <= i < end - 1 ==> is_digit(#[trigger] text[i])
    &&& text[end - 1] == '>'
}

/// The number written in the mention token `text[start..end]`.
pub open spec fn mention_id(text: Seq<char>, start: int, end: int) -> nat {
    decimal_value(text.subrange(digits_start(text, start), end - 1))
}

/// The user ids of the mention tokens that start before `limit`.
pub open spec fn mentioned_before(text: Seq<char>, limit: int) -> Set<u64> {
    Set::new(
        |user: u64|
            exists|start: int, end: int|
                start < limit && #[trigger] is_mention(text, start, end) && mention_id(
                    text,
                    start,
                    end,
                ) == user,
    )
}

/// The user ids that `text` mentions: one for each mention token in it whose number fits in
/// 64 bits. All other text counts for nothing.
pub open spec fn mentioned_users(text: Seq<char>) -> Set<u64> {
    mentioned_before(text, text.len() as int)
}

/// A mention token that starts at a given place ends at one place only.
pub proof fn lemma_mention_end_unique(text: Seq<char>, start: int, end1: int, end2: int)
    requires
        is_mention(text, start, end1),
        is_mention(text, start, end2),
    ensures
        end1 == end2,
{
    if end1 < end2 {
        assert(is_digit(text[end1 - 1]));
    }
    if end2 < end1 {
        assert(is_digit(text[end2 - 1]));
    }
}

/// A text that holds no mention token mentions nobody.
pub proof fn lemma_no_token_no_user(text: Seq<char>)
    requires
        forall|start: int, end: int| !#[trigger] is_mention(text, start, end),
    ensures
        mentioned_users(text) == Set::<u64>::empty(),
{
    assert(mentioned_users(text) =~= Set::<u64>::empty());
}

/// A text without `<` holds no mention token, and so mentions nobody; the empty text is
/// one such.
pub proof fn lemma_no_bracket_no_user(text: Seq<char>)
    requires
        forall|i: int| 0 <= i < text.len() ==> text[i] != '<',
    ensures
        forall|start: int, end: int| !#[trigger] is_mention(text, start, end),
        mentioned_users(text) == Set::<u64>::empty(),
{
    assert forall|start: int, end: int| !#[trigger] is_mention(text, start, end) by {
        if is_mention(text, start, end) {
            assert(text[start] == '<');
        }
    }
    lemma_no_token_no_user(text);
}

/// The id of the mention token that starts at `start`, where one starts there and its number
/// fits in 64 bits.
pub fn mention_at(text: &Vec<char>, start: usize) -> (found: Option<u64>)
    requires
        start < text.len(),
    ensures
        match found {
            Some(id) => exists|end: int| #[trigger]
                is_mention(text@, start as int, end) && mention_id(text@, start as int, end) == id,
            None => forall|end: int| #[trigger]
                is_mention(text@, start as int, end) ==> mention_id(text@, start as int, end)
                    > u64::MAX,
        },
{
    let n = text.len();
    if n - start < 4 || text[start] != '<' || text[start + 1] != '@' {
        return None;
    }
    let first = if text[start + 2] == '!' {
        start + 3
    } else {
        start + 2
    };
    assert(first == digits_start(text@, start as int));
    let mut k = first;
    let mut value: u64 = 0;
    let mut fits = true;
    while k < n && is_ascii_digit(text[k])
        invariant
            first <= k <= n,
            n == text.len(),
            forall|j: int| first <= j < k ==> is_digit(#[trigger] text@[j]),
            fits ==> value == decimal_value(text@.subrange(first as int, k as int)),
            !fits ==> decimal_value(text@.subrange(first as int, k as int)) > u64::MAX,
        decreases n - k,
    {
        let d = digit_of(text[k]);
        proof {
            let longer = text@.subrange(first as int, k + 1);
            assert(longer.drop_last() =~= text@.subrange(first as int, k as int));
            assert(longer.last() == text@[k as int]);
        }
        if fits {
            match value.checked_mul(10) {
                Some(tens) => match tens.checked_add(d) {
                    Some(sum) => {
                        value = sum;
                    },
                    None => {
                        fits = false;
                    },
                },
                None => {
                    fits = false;
                },
            }
        }
        k += 1;
    }
    let closed = k > first && k < n && text[k] == '>';
    proof {
        assert forall|end: int| #[trigger] is_mention(text@, start as int, end) implies end == k
            + 1 && closed by {
            if end - 1 < k {
                assert(is_digit(text@[end - 1]));
            }
            if end - 1 > k {
                assert(is_digit(text@[k as int]));
            }
        }
        if closed {
            assert(is_mention(text@, start as int, k + 1));
        }
    }
    if closed && fits {
        Some(value)
    } else {
        None
    }
}

/// Reads the users that a command's text mentions.
pub fn input_to_users(input: &str) -> (users: HashSet<u64>)
    ensures
        users@ == mentioned_users(input@),
{
    let text = chars_of(input);
    let mut users: HashSet<u64> = HashSet::new();
    let mut i: usize = 0;
    assert(users@ =~= mentioned_before(text@, 0)) by {
        assert forall|start: int, end: int| start < 0 implies !#[trigger] is_mention(
            text@,
            start,
            end,
        ) by {}
    }
    while i < text.len()
        invariant
            i <= text.len(),
            users@ == mentioned_before(text@, i as int),
        decreases text.len() - i,
    {
        let found = mention_at(&text, i);
        let ghost before = users@;
        if let Some(id) = found {
            users.insert(id);
        }
        proof {
            let next = mentioned_before(text@, i + 1);
            assert forall|user: u64| users@.contains(user) <==> next.contains(user) by {
                if next.contains(user) {
                    let (start, end) = choose|start: int, end: int|
                        start < i + 1 && #[trigger] is_mention(text@, start, end) && mention_id(
                            text@,
                            start,
                            end,
                        ) == user;
                    if start < i {
                        assert(before.contains(user));
                    } else {
                        if let Some(id) = found {
                            let theirs = choose|e: int| #[trigger]
                                is_mention(text@, i as int, e) && mention_id(text@, i as int, e)
                                    == id;
                            lemma_mention_end_unique(text@, i as int, end, theirs);
                        }
                    }
                }
                if users@.contains(user) {
                    if before.contains(user) {
                        let (start, end) = choose|start: int, end: int|
                            start < i && #[trigger] is_mention(text@, start, end) && mention_id(
                                text@,
                                start,
                                end,
                            ) == user;
                        assert(start < i + 1 && is_mention(text@, start, end));
                    } else {
                        let id = found->0;
                        let e = choose|e: int| #[trigger]
                            is_mention(text@, i as int, e) && mention_id(text@, i as int, e) == id;
                        assert(i < i + 1 && is_mention(text@, i as int, e));
                    }
                }
            }
            assert(users@ =~= next);
        }
        i += 1;
    }
    users
}

/// The token that pings one user: `<@!`, the user's id in decimal, `>`.
pub open spec fn mention_token(user: u64) -> Seq<char> {
    seq!['<', '@', '!'] + decimal_digits(user as nat) + seq!['>']
}

/// The tokens that ping the users of a list, one behind the other with nothing between.
pub open spec fn mention_list(users: Seq<u64>) -> Seq<char>
    decreases users.len(),
{
    if users.len() == 0 {
        Seq::empty()
    } else {
        mention_list(users.drop_last()) + mention_token(users.last())
    }
}

/// Appends the token that pings `user`.
pub fn push_mention(out: &mut String, user: u64)
    ensures
        final(out)@ == old(out)@ + mention_token(user),
{
    out.push('<');
    out.push('@');
    out.push('!');
    push_decimal(out, user);
    out.push('>');
    assert(out@ =~= old(out)@ + mention_token(user));
}

} // verus!
