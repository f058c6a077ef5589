//! How a server reads the statements that the `quoting` module writes, and that it reads back
//! exactly the names that were written.

use vstd::prelude::*;

use crate::postgres::quoting::{
    escaped, listen_all_text, listen_text, quoted_body, truncated, unlisten_text,
};

verus! {

/// Reads a quoted identifier from behind its opening quote: two double quotes stand for one, a
/// single one ends the identifier. Gives the name, and the text behind the closing quote.
pub open spec fn read_quoted(text: Seq<char>) -> Option<(Seq<char>, Seq<char>)>
    decreases text.len(),
{
    if text.len() == 0 {
        None
    } else if text[0] != '"' {
        match read_quoted(text.drop_first()) {
            Some((name, rest)) => Some((seq![text[0]] + name, rest)),
            None => None,
        }
    } else if text.len() > 1 && text[1] == '"' {
        match read_quoted(text.skip(2)) {
            Some((name, rest)) => Some((seq!['"'] + name, rest)),
            None => None,
        }
    } else {
        Some((Seq::empty(), text.drop_first()))
    }
}

/// Reads `keyword "name"` from the front of a text: the name, and what follows it.
pub open spec fn read_statement(keyword: Seq<char>, text: Seq<char>) -> Option<
    (Seq<char>, Seq<char>),
> {
    let opening = keyword + seq![' ', '"'];
    if opening.is_prefix_of(text) {
        read_quoted(text.skip(opening.len() as int))
    } else {
        None
    }
}

/// Reads a text that is made of nothing but `LISTEN "name";` statements: the names, in order.
pub open spec fn read_listen_all(text: Seq<char>) -> Option<Seq<Seq<char>>>
    decreases text.len(),
{
    if text.len() == 0 {
        Some(Seq::empty())
    } else {
        match read_statement("LISTEN"@, text) {
            Some((name, rest)) => if 0 < rest.len() < text.len() && rest[0] == ';' {
                match read_listen_all(rest.drop_first()) {
                    Some(names) => Some(seq![name] + names),
                    None => None,
                }
            } else {
                None
            },
            None => None,
        }
    }
}

/// A name without a NUL is not cut.
pub proof fn law_truncated_keeps_names_without_nul(name: Seq<char>)
    requires
        !name.contains('\0'),
    ensures
        truncated(name) == name,
    decreases name.len(),
{
    if name.len() > 0 {
        assert(name[0] != '\0');
        assert forall|i: int| 0 <= i < name.drop_first().len() implies name.drop_first()[i]
            != '\0' by {
            assert(name[i + 1] != '\0');
        }
        law_truncated_keeps_names_without_nul(name.drop_first());
        assert(name == seq![name[0]] + name.drop_first());
    }
}

/// What is left of a name is its longest beginning that has no NUL.
pub proof fn law_truncated_stops_at_first_nul(name: Seq<char>)
    ensures
        truncated(name).is_prefix_of(name),
        !truncated(name).contains('\0'),
        truncated(name).len() < name.len() ==> name[truncated(name).len() as int] == '\0',
    decreases name.len(),
{
    if name.len() > 0 && name[0] != '\0' {
        let rest = name.drop_first();
        law_truncated_stops_at_first_nul(rest);
        assert(truncated(name) == seq![name[0]] + truncated(rest));
        assert forall|i: int| 0 <= i < truncated(name).len() implies truncated(name)[i] == name[i]
            && truncated(name)[i] != '\0' by {
            if i > 0 {
                assert(truncated(name)[i] == truncated(rest)[i - 1]);
                assert(truncated(rest)[i - 1] == rest[i - 1]);
                assert(truncated(rest).contains(truncated(rest)[i - 1]));
            }
        }
        assert(truncated(name) =~= name.take(truncated(name).len() as int));
    }
}

/// Reading a quoted identifier gives back the name that was escaped, letter for letter, and
/// stops at the quote that closes it, whatever the name holds.
pub proof fn law_escaped_reads_back(name: Seq<char>, rest: Seq<char>)
    requires
        rest.len() == 0 || rest[0] != '"',
    ensures
        read_quoted(escaped(name) + seq!['"'] + rest) == Some((name, rest)),
    decreases name.len(),
{
    let text = escaped(name) + seq!['"'] + rest;
    if name.len() == 0 {
        assert(text.drop_first() == rest);
    } else {
        let tail = name.drop_first();
        law_escaped_reads_back(tail, rest);
        assert(name == seq![name[0]] + tail);
        if name[0] == '"' {
            assert(text.skip(2) == escaped(tail) + seq!['"'] + rest);
        } else {
            assert(text.drop_first() == escaped(tail) + seq!['"'] + rest);
        }
    }
}

/// A `LISTEN` or `UNLISTEN` statement names exactly the channel that it was written for, in its
/// own letter case, and nothing follows the name.
pub proof fn law_statement_names_its_channel(name: Seq<char>)
    ensures
        read_statement("LISTEN"@, listen_text(name)) == Some(
            (truncated(name), Seq::<char>::empty()),
        ),
        read_statement("UNLISTEN"@, unlisten_text(name)) == Some(
            (truncated(name), Seq::<char>::empty()),
        ),
{
    reveal_strlit("LISTEN");
    reveal_strlit("UNLISTEN");
    reveal_strlit("LISTEN \"");
    reveal_strlit("UNLISTEN \"");
    reveal_strlit("\"");
    let tail = quoted_body(name) + seq!['"'] + Seq::<char>::empty();
    law_escaped_reads_back(truncated(name), Seq::empty());
    assert("\""@ =~= seq!['"']);
    assert("LISTEN \""@ =~= "LISTEN"@ + seq![' ', '"']);
    assert("UNLISTEN \""@ =~= "UNLISTEN"@ + seq![' ', '"']);
    assert(listen_text(name).skip(8) == tail);
    assert(unlisten_text(name).skip(10) == tail);
}

/// The statements for a first name and for the others.
proof fn lemma_listen_all_first(names: Seq<Seq<char>>)
    requires
        names.len() > 0,
    ensures
        listen_all_text(names) == "LISTEN \""@ + quoted_body(names[0]) + "\";"@ + listen_all_text(
            names.drop_first(),
        ),
    decreases names.len(),
{
    if names.len() == 1 {
        assert(names.drop_last() == Seq::<Seq<char>>::empty());
        assert(names.drop_first() == Seq::<Seq<char>>::empty());
    } else {
        lemma_listen_all_first(names.drop_last());
        assert(names.drop_last().drop_first() == names.drop_first().drop_last());
        assert(names.drop_last()[0] == names[0]);
        assert(names.drop_first().last() == names.last());
    }
}

/// The statements that subscribe to a list of channels name exactly those channels, in order.
pub proof fn law_listen_all_names_its_channels(names: Seq<Seq<char>>)
    ensures
        read_listen_all(listen_all_text(names)) == Some(
            names.map_values(|name: Seq<char>| truncated(name)),
        ),
    decreases names.len(),
{
    let cut = |name: Seq<char>| truncated(name);
    let text = listen_all_text(names);
    if names.len() == 0 {
        assert(names.map_values(cut) == Seq::<Seq<char>>::empty());
    } else {
        let others = listen_all_text(names.drop_first());
        let rest = seq![';'] + others;
        lemma_listen_all_first(names);
        law_listen_all_names_its_channels(names.drop_first());
        law_escaped_reads_back(truncated(names[0]), rest);
        reveal_strlit("LISTEN");
        reveal_strlit("LISTEN \"");
        reveal_strlit("\";");
        assert("\";"@ =~= seq!['"', ';']);
        assert("LISTEN \""@ =~= "LISTEN"@ + seq![' ', '"']);
        assert(text.skip(8) == quoted_body(names[0]) + seq!['"'] + rest);
        assert(rest.drop_first() == others);
        assert(names.map_values(cut) == seq![truncated(names[0])] + names.drop_first().map_values(
            cut,
        ));
    }
}

} // verus!
