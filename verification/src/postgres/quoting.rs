//! Quoting of channel names in `LISTEN` and `UNLISTEN` statements.

use vstd::prelude::*;
use vstd::string::*;

verus! {

/// The part of a name in front of its first NUL, or the whole name if it has none.
pub open spec fn truncated(name: Seq<char>) -> Seq<char>
    decreases name.len(),
{
    if name.len() == 0 || name[0] == '\0' {
        Seq::empty()
    } else {
        seq![name[0]] + truncated(name.drop_first())
    }
}

/// A name with each of its double quotes doubled.
pub open spec fn escaped(name: Seq<char>) -> Seq<char>
    decreases name.len(),
{
    if name.len() == 0 {
        Seq::empty()
    } else if name[0] == '"' {
        seq!['"', '"'] + escaped(name.drop_first())
    } else {
        seq![name[0]] + escaped(name.drop_first())
    }
}

/// What stands between the quotes when `name` is written as a quoted identifier.
pub open spec fn quoted_body(name: Seq<char>) -> Seq<char> {
    escaped(truncated(name))
}

/// The body of a quoted identifier that stands for `name`: cut at the first NUL, with every
/// double quote doubled.
pub fn ident(name: &str) -> (body: String)
    ensures
        body@ == quoted_body(name@),
{
    let mut body = String::new();
    assert(name@.skip(0) == name@);
    for c in it: name.chars()
        invariant
            it.seq() == name@,
            quoted_body(name@) == body@ + quoted_body(name@.skip(it.index())),
    {
        proof {
            let rest = name@.skip(it.index());
            assert(rest[0] == c);
            assert(rest.drop_first() == name@.skip(it.index() + 1));
            if c != '\0' {
                assert(truncated(rest).drop_first() == truncated(rest.drop_first()));
            }
        }
        if c == '\0' {
            return body;
        }
        if c == '"' {
            body.push('"');
        }
        body.push(c);
    }
    body
}

/// A channel name in one of the forms that callers hold it in.
pub trait ChannelName {
    /// The characters of the name.
    spec fn chars_of(&self) -> Seq<char>;

    /// The name as a string slice.
    fn as_name(&self) -> (name: &str)
        ensures
            name@ == self.chars_of(),
    ;
}

impl ChannelName for &str {
    open spec fn chars_of(&self) -> Seq<char> {
        self@
    }

    fn as_name(&self) -> (name: &str) {
        *self
    }
}

impl ChannelName for String {
    open spec fn chars_of(&self) -> Seq<char> {
        self@
    }

    fn as_name(&self) -> (name: &str) {
        self.as_str()
    }
}

/// The characters of each of the names, in order.
pub open spec fn names_of<S: ChannelName>(channels: Seq<S>) -> Seq<Seq<char>> {
    channels.map_values(|channel: S| channel.chars_of())
}

/// `LISTEN "name"`, without a closing semicolon.
pub open spec fn listen_text(name: Seq<char>) -> Seq<char> {
    "LISTEN \""@ + quoted_body(name) + "\""@
}

/// `UNLISTEN "name"`, without a closing semicolon.
pub open spec fn unlisten_text(name: Seq<char>) -> Seq<char> {
    "UNLISTEN \""@ + quoted_body(name) + "\""@
}

/// One `LISTEN "name";` for each of the names, in order, with nothing in between.
pub open spec fn listen_all_text(names: Seq<Seq<char>>) -> Seq<char>
    decreases names.len(),
{
    if names.len() == 0 {
        Seq::empty()
    } else {
        listen_all_text(names.drop_last()) + ("LISTEN \""@ + quoted_body(names.last()) + "\";"@)
    }
}

/// The statement that starts listening on one channel.
pub fn listen_query(channel: &str) -> (query: String)
    ensures
        query@ == listen_text(channel@),
{
    let mut query = String::new();
    query.append("LISTEN \"");
    query.append(ident(channel).as_str());
    query.append("\"");
    query
}

/// The statement that stops listening on one channel.
pub fn unlisten_query(channel: &str) -> (query: String)
    ensures
        query@ == unlisten_text(channel@),
{
    let mut query = String::new();
    query.append("UNLISTEN \"");
    query.append(ident(channel).as_str());
    query.append("\"");
    query
}

/// The statement that stops listening on all channels.
pub fn unlisten_all_query() -> (query: String)
    ensures
        query@ == "UNLISTEN *"@,
{
    "UNLISTEN *".to_owned()
}

/// The statements that start listening on each of the channels, in order.
pub fn build_listen_all_query<S: ChannelName>(channels: &[S]) -> (query: String)
    ensures
        query@ == listen_all_text(names_of(channels@)),
{
    let mut query = String::new();
    for i in 0..channels.len()
        invariant
            query@ == listen_all_text(names_of(channels@).take(i as int)),
    {
        query.append("LISTEN \"");
        query.append(ident(channels[i].as_name()).as_str());
        query.append("\";");
        proof {
            let longer = names_of(channels@).take(i + 1);
            assert(longer.drop_last() == names_of(channels@).take(i as int));
            assert(longer.last() == channels@[i as int].chars_of());
        }
    }
    assert(names_of(channels@).take(channels@.len() as int) == names_of(channels@));
    query
}

} // verus!
