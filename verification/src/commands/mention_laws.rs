use crate::commands::mention::{
    digits_start, is_mention, lemma_mention_end_unique, mention_id, mention_token, mentioned_users,
};
use crate::commands::ping::{announce_prefix, announcement, announces};
use crate::text::{decimal_digits, decimal_value, digit_char, digit_value, is_digit};
use vstd::prelude::*;

verus! {

/// The digits of a number are digits, and denote the number.
pub proof fn lemma_decimal_round_trip(n: nat)
    ensures
        decimal_digits(n).len() > 0,
        forall|i: int| 0 <= i < decimal_digits(n).len() ==> is_digit(#[trigger] decimal_digits(n)[i]),
        decimal_value(decimal_digits(n)) == n,
    decreases n,
{
    if n < 10 {
        let digits = decimal_digits(n);
        assert(digits.drop_last() =~= Seq::<char>::empty());
        assert(decimal_value(digits.drop_last()) == 0);
        assert(digit_value(digit_char(n)) == n);
        assert(is_digit(digit_char(n)));
    } else {
        lemma_decimal_round_trip(n / 10);
        let head = decimal_digits(n / 10);
        let digits = head.push(digit_char(n % 10));
        assert(digits.drop_last() =~= head);
        assert(digit_value(digit_char(n % 10)) == n % 10);
        assert(is_digit(digit_char(n % 10)));
        assert forall|i: int| 0 <= i < digits.len() implies is_digit(#[trigger] digits[i]) by {
            if i < head.len() {
                assert(digits[i] == head[i]);
            }
        }
    }
}

/// The token that pings a user holds one mention, and it is the user's.
pub proof fn lemma_token_mentions_its_user(user: u64)
    ensures
        mention_token(user).len() >= 5,
        mention_token(user)[0] == '<',
        forall|i: int| 0 < i < mention_token(user).len() ==> mention_token(user)[i] != '<',
        is_mention(mention_token(user), 0, mention_token(user).len() as int),
        mention_id(mention_token(user), 0, mention_token(user).len() as int) == user,
        mentioned_users(mention_token(user)) == set![user],
{
    let token = mention_token(user);
    let digits = decimal_digits(user as nat);
    lemma_decimal_round_trip(user as nat);
    assert(token.len() == digits.len() + 4);
    assert(token[0] == '<' && token[1] == '@' && token[2] == '!');
    assert forall|i: int| 3 <= i < token.len() - 1 implies is_digit(#[trigger] token[i]) by {
        assert(token[i] == digits[i - 3]);
    }
    assert(token[token.len() - 1] == '>');
    assert(digits_start(token, 0) == 3);
    assert(token.subrange(3, token.len() - 1) =~= digits);
    assert(is_mention(token, 0, token.len() as int));
    assert forall|i: int| 0 < i < token.len() implies token[i] != '<' by {
        if 3 <= i < token.len() - 1 {
            assert(is_digit(token[i]));
        }
    }
    assert forall|u: u64| mentioned_users(token).contains(u) <==> u == user by {
        if mentioned_users(token).contains(u) {
            let (start, end) = choose|start: int, end: int|
                start < token.len() && #[trigger] is_mention(token, start, end) && mention_id(
                    token,
                    start,
                    end,
                ) == u;
            assert(token[start] == '<');
            lemma_mention_end_unique(token, 0, end, token.len() as int);
        }
        if u == user {
            assert(0 < token.len() && is_mention(token, 0, token.len() as int));
        }
    }
    assert(mentioned_users(token) =~= set![user]);
}

/// A text with a text behind it that begins with `<` mentions the users of both, and no
/// other: no mention reaches from the one into the other.
pub proof fn lemma_mentions_of_joined(a: Seq<char>, b: Seq<char>)
    requires
        b.len() > 0,
        b[0] == '<',
    ensures
        mentioned_users(a + b) == mentioned_users(a).union(mentioned_users(b)),
{
    let text = a + b;
    let shift = a.len() as int;
    assert forall|start: int, end: int| #[trigger] is_mention(a, start, end) implies is_mention(
        text,
        start,
        end,
    ) && mention_id(text, start, end) == mention_id(a, start, end) by {
        assert(text[start + 2] == a[start + 2]);
        assert(digits_start(text, start) == digits_start(a, start));
        assert forall|i: int| digits_start(text, start) <= i < end - 1 implies is_digit(
            #[trigger] text[i],
        ) by {
            assert(text[i] == a[i]);
        }
        assert(text.subrange(digits_start(text, start), end - 1) =~= a.subrange(
            digits_start(a, start),
            end - 1,
        ));
    }
    assert forall|start: int, end: int| #[trigger] is_mention(b, start, end) implies is_mention(
        text,
        start + shift,
        end + shift,
    ) && mention_id(text, start + shift, end + shift) == mention_id(b, start, end) by {
        assert(text[start + shift + 2] == b[start + 2]);
        assert(text[start + shift] == b[start]);
        assert(text[start + shift + 1] == b[start + 1]);
        assert(text[end + shift - 1] == b[end - 1]);
        assert(digits_start(text, start + shift) == digits_start(b, start) + shift);
        assert forall|i: int| digits_start(text, start + shift) <= i < end + shift - 1 implies is_digit(
            #[trigger] text[i],
        ) by {
            assert(text[i] == b[i - shift]);
        }
        assert(text.subrange(digits_start(text, start + shift), end + shift - 1) =~= b.subrange(
            digits_start(b, start),
            end - 1,
        ));
    }
    assert forall|start: int, end: int| #[trigger] is_mention(text, start, end) implies (end
        <= shift && is_mention(a, start, end) && mention_id(a, start, end) == mention_id(
        text,
        start,
        end,
    )) || (start >= shift && is_mention(b, start - shift, end - shift) && mention_id(
        b,
        start - shift,
        end - shift,
    ) == mention_id(text, start, end)) by {
        let first = digits_start(text, start);
        if end <= shift {
            assert(text[start] == a[start] && text[start + 1] == a[start + 1]);
            assert(text[start + 2] == a[start + 2]);
            assert(text[end - 1] == a[end - 1]);
            assert(digits_start(a, start) == first);
            assert forall|i: int| first <= i < end - 1 implies is_digit(#[trigger] a[i]) by {
                assert(text[i] == a[i]);
            }
            assert(text.subrange(first, end - 1) =~= a.subrange(first, end - 1));
        } else if start >= shift {
            assert(text[start] == b[start - shift] && text[start + 1] == b[start + 1 - shift]);
            assert(text[start + 2] == b[start + 2 - shift]);
            assert(text[end - 1] == b[end - 1 - shift]);
            assert(digits_start(b, start - shift) == first - shift);
            assert forall|i: int| first - shift <= i < end - shift - 1 implies is_digit(
                #[trigger] b[i],
            ) by {
                assert(text[i + shift] == b[i]);
                assert(is_digit(text[i + shift]));
            }
            assert(text.subrange(first, end - 1) =~= b.subrange(first - shift, end - shift - 1));
        } else {
            assert(text[shift] == '<');
            if shift == start + 1 {
            } else if shift == start + 2 {
            } else if shift < end - 1 {
                assert(first <= shift);
                assert(is_digit(text[shift]));
            } else {
            }
        }
    }
    assert forall|u: u64| mentioned_users(text).contains(u) <==> mentioned_users(a).contains(u)
        || mentioned_users(b).contains(u) by {
        if mentioned_users(text).contains(u) {
            let (start, end) = choose|start: int, end: int|
                start < text.len() && #[trigger] is_mention(text, start, end) && mention_id(
                    text,
                    start,
                    end,
                ) == u;
            if end <= shift {
                assert(start < a.len() && is_mention(a, start, end));
            } else {
                assert(start - shift < b.len() && is_mention(b, start - shift, end - shift));
            }
        }
        if mentioned_users(a).contains(u) {
            let (start, end) = choose|start: int, end: int|
                start < a.len() && #[trigger] is_mention(a, start, end) && mention_id(
                    a,
                    start,
                    end,
                ) == u;
            assert(start < text.len() && is_mention(text, start, end));
        }
        if mentioned_users(b).contains(u) {
            let (start, end) = choose|start: int, end: int|
                start < b.len() && #[trigger] is_mention(b, start, end) && mention_id(
                    b,
                    start,
                    end,
                ) == u;
            assert(start + shift < text.len() && is_mention(text, start + shift, end + shift));
        }
    }
    assert(mentioned_users(text) =~= mentioned_users(a).union(mentioned_users(b)));
}

/// What is read off an announcement is who it pings: the users of the list, and no other.
pub proof fn lemma_announcement_is_read_back(order: Seq<u64>)
    ensures
        mentioned_users(announcement(order)) == order.to_set(),
    decreases order.len(),
{
    if order.len() == 0 {
        assert(announcement(order) =~= announce_prefix());
        assert forall|start: int, end: int| !#[trigger] is_mention(
            announce_prefix(),
            start,
            end,
        ) by {}
        assert(mentioned_users(announce_prefix()) =~= Set::<u64>::empty());
        assert(order.to_set() =~= Set::<u64>::empty());
    } else {
        let head = order.drop_last();
        let user = order.last();
        lemma_announcement_is_read_back(head);
        lemma_token_mentions_its_user(user);
        assert(announcement(order) =~= announcement(head) + mention_token(user));
        lemma_mentions_of_joined(announcement(head), mention_token(user));
        assert(order =~= head.push(user));
        head.lemma_push_to_set_commute(user);
        assert(order.to_set() =~= head.to_set().union(set![user]));
    }
}

/// A text that announces a set of users mentions that set.
pub proof fn lemma_announced_users_are_read_back(text: Seq<char>, users: Set<u64>)
    requires
        announces(text, users),
    ensures
        mentioned_users(text) == users,
{
    let order = choose|order: Seq<u64>|
        order.no_duplicates() && order.to_set() == users && text == #[trigger] announcement(order);
    lemma_announcement_is_read_back(order);
}

} // verus!
