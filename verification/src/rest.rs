use vstd::prelude::*;

use crate::api::{lit, Message};
use crate::text::push_all;

verus! {

/// The address that asks for the messages of a channel, with each of the optional
/// `around`, `before`, `after` (each followed by `&`) and `limit` that is given.
pub open spec fn messages_url_spec(
    channel_id: Seq<char>,
    around: Option<Seq<char>>,
    before: Option<Seq<char>>,
    after: Option<Seq<char>>,
    limit: Option<Seq<char>>,
) -> Seq<char> {
    "https://discord.com/api/v10/channels/"@ + channel_id + "/messages?"@ + (match around {
        Some(a) => "around="@ + a + "&"@,
        None => Seq::empty(),
    }) + (match before {
        Some(b) => "before="@ + b + "&"@,
        None => Seq::empty(),
    }) + (match after {
        Some(a) => "after="@ + a + "&"@,
        None => Seq::empty(),
    }) + match limit {
        Some(l) => "limit="@ + l,
        None => Seq::empty(),
    }
}

/// The address that asks for the messages of a channel.
pub fn messages_url(
    channel_id: &str,
    around: Option<&str>,
    before: Option<&str>,
    after: Option<&str>,
    limit: Option<&str>,
) -> (r: String)
    ensures
        r@ == messages_url_spec(
            channel_id@,
            match around {
                Some(a) => Some(a@),
                None => None,
            },
            match before {
                Some(b) => Some(b@),
                None => None,
            },
            match after {
                Some(a) => Some(a@),
                None => None,
            },
            match limit {
                Some(l) => Some(l@),
                None => None,
            },
        ),
{
    let mut r = lit("https://discord.com/api/v10/channels/");
    push_all(&mut r, channel_id);
    push_all(&mut r, "/messages?");
    if let Some(a) = around {
        push_all(&mut r, "around=");
        push_all(&mut r, a);
        push_all(&mut r, "&");
    }
    if let Some(b) = before {
        push_all(&mut r, "before=");
        push_all(&mut r, b);
        push_all(&mut r, "&");
    }
    if let Some(a) = after {
        push_all(&mut r, "after=");
        push_all(&mut r, a);
        push_all(&mut r, "&");
    }
    if let Some(l) = limit {
        push_all(&mut r, "limit=");
        push_all(&mut r, l);
    }
    r
}

/// The messages as the service lists them (newest first), turned round.
pub fn oldest_first(ms: Vec<Message>) -> (r: Vec<Message>)
    ensures
        r@ == ms@.reverse(),
{
    let mut r: Vec<Message> = Vec::new();
    let mut rest = ms;
    let ghost orig = rest@;
    while rest.len() > 0
        invariant
            orig.len() == r.len() + rest.len(),
            rest@ == orig.take(rest.len() as int),
            r@ == orig.reverse().take(r.len() as int),
        decreases rest.len(),
    {
        let ghost k = rest.len();
        let m = rest.pop().unwrap();
        assert(m == orig[k - 1]);
        r.push(m);
        assert(rest@ =~= orig.take(rest.len() as int));
        assert(r@ =~= orig.reverse().take(r.len() as int));
    }
    assert(r@ =~= orig.reverse());
    r
}

} // verus!
