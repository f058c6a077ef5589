//! Laws of channel names, of the statements that hold them and of the list of subscriptions.

use vstd::prelude::*;

use crate::postgres::listener::without_first;
use crate::postgres::quoting::{
    escaped, listen_all_text, listen_text, names_of, quoted_body, truncated, unlisten_text,
    ChannelName,
};
use crate::postgres::reading::{
    law_listen_all_names_its_channels, law_truncated_keeps_names_without_nul,
    law_truncated_stops_at_first_nul, read_listen_all,
};

verus! {

/// The characters of a channel name are all of its characters, in whichever form it is held.
pub proof fn law_channel_name_is_whole(slice: &str, owned: String)
    ensures
        slice.chars_of() == slice@,
        owned.chars_of() == owned@,
{
}

/// A list of names has one entry for each channel, in order, and the entry is the whole name of
/// the channel.
pub proof fn law_names_are_whole<'a>(slices: Seq<&'a str>, owned: Seq<String>)
    ensures
        names_of(slices).len() == slices.len(),
        forall|i: int| 0 <= i < slices.len() ==> #[trigger] names_of(slices)[i] == slices[i]@,
        names_of(owned).len() == owned.len(),
        forall|i: int| 0 <= i < owned.len() ==> #[trigger] names_of(owned)[i] == owned[i]@,
{
}

/// The statements that subscribe to a list of channels name these channels and no others, in
/// order, each with its whole name up to a NUL.
pub proof fn law_subscribed_channels_are_those_asked_for<'a>(
    slices: Seq<&'a str>,
    owned: Seq<String>,
)
    ensures
        read_listen_all(listen_all_text(names_of(slices))) == Some(
            Seq::new(slices.len(), |i: int| truncated(slices[i]@)),
        ),
        read_listen_all(listen_all_text(names_of(owned))) == Some(
            Seq::new(owned.len(), |i: int| truncated(owned[i]@)),
        ),
        (forall|i: int| 0 <= i < slices.len() ==> !(#[trigger] slices[i])@.contains('\0'))
            ==> read_listen_all(listen_all_text(names_of(slices))) == Some(
            Seq::new(slices.len(), |i: int| slices[i]@),
        ),
{
    law_names_are_whole(slices, owned);
    law_listen_all_names_its_channels(names_of(slices));
    law_listen_all_names_its_channels(names_of(owned));
    let cut = |name: Seq<char>| truncated(name);
    assert(names_of(slices).map_values(cut) =~= Seq::new(
        slices.len(),
        |i: int| truncated(slices[i]@),
    ));
    assert(names_of(owned).map_values(cut) =~= Seq::new(
        owned.len(),
        |i: int| truncated(owned[i]@),
    ));
    if forall|i: int| 0 <= i < slices.len() ==> !(#[trigger] slices[i])@.contains('\0') {
        assert forall|i: int| 0 <= i < slices.len() implies truncated(slices[i]@)
            == slices[i]@ by {
            law_truncated_keeps_names_without_nul(slices[i]@);
        }
        assert(Seq::new(slices.len(), |i: int| truncated(slices[i]@)) =~= Seq::new(
            slices.len(),
            |i: int| slices[i]@,
        ));
    }
}

/// Escaping goes character by character: a double quote becomes two, any other character stays,
/// and what stands around a character makes no difference to it.
pub proof fn law_escaping_is_by_character(c: char, front: Seq<char>, back: Seq<char>)
    ensures
        escaped(Seq::empty()) == Seq::<char>::empty(),
        escaped(seq!['"']) == seq!['"', '"'],
        c != '"' ==> escaped(seq![c]) == seq![c],
        escaped(front + back) == escaped(front) + escaped(back),
    decreases front.len(),
{
    assert(seq!['"'].drop_first() =~= Seq::<char>::empty());
    assert(seq![c].drop_first() =~= Seq::<char>::empty());
    reveal_with_fuel(escaped, 3);
    assert(escaped(seq!['"']) =~= seq!['"', '"']);
    assert(c != '"' ==> escaped(seq![c]) =~= seq![c]);
    if front.len() == 0 {
        assert(front + back =~= back);
        assert(escaped(front) + escaped(back) =~= escaped(back));
    } else {
        law_escaping_is_by_character(c, front.drop_first(), back);
        assert((front + back).drop_first() =~= front.drop_first() + back);
        assert(escaped(front + back) =~= escaped(front) + escaped(back));
    }
}

/// Escaping leaves a text without double quotes as it is.
pub proof fn law_escaping_keeps_texts_without_quotes(text: Seq<char>)
    requires
        !text.contains('"'),
    ensures
        escaped(text) == text,
    decreases text.len(),
{
    if text.len() > 0 {
        assert(text[0] != '"');
        assert forall|i: int| 0 <= i < text.drop_first().len() implies text.drop_first()[i]
            != '"' by {
            assert(text[i + 1] != '"');
        }
        law_escaping_keeps_texts_without_quotes(text.drop_first());
        assert(text =~= seq![text[0]] + text.drop_first());
    }
}

/// What stands between the quotes is the escaped form of the longest beginning of the name that
/// has no NUL, however long the name is; a name without NULs and double quotes stands there as it
/// is.
pub proof fn law_quoted_body(name: Seq<char>, beginning: Seq<char>)
    ensures
        beginning.is_prefix_of(name) && !beginning.contains('\0') && (beginning.len() < name.len()
            ==> name[beginning.len() as int] == '\0') ==> quoted_body(name) == escaped(beginning),
        !name.contains('\0') ==> quoted_body(name) == escaped(name),
        !name.contains('\0') && !name.contains('"') ==> quoted_body(name) == name,
{
    law_truncated_stops_at_first_nul(name);
    if beginning.is_prefix_of(name) && !beginning.contains('\0') && (beginning.len() < name.len()
        ==> name[beginning.len() as int] == '\0') {
        let cut = truncated(name);
        if cut.len() < beginning.len() {
            assert(beginning[cut.len() as int] == name[cut.len() as int]);
            assert(beginning.contains('\0'));
        }
        if beginning.len() < cut.len() {
            assert(cut[beginning.len() as int] == name[beginning.len() as int]);
            assert(cut.contains('\0'));
        }
        assert(cut =~= beginning);
    }
    if !name.contains('\0') {
        law_truncated_keeps_names_without_nul(name);
        if !name.contains('"') {
            law_escaping_keeps_texts_without_quotes(name);
        }
    }
}

/// A statement is its keyword, a space and the name between double quotes. A name without NULs and
/// double quotes stands in it letter for letter.
pub proof fn law_statement_is_keyword_and_quoted_name(name: Seq<char>)
    ensures
        listen_text(name) == "LISTEN \""@ + escaped(truncated(name)) + seq!['"'],
        unlisten_text(name) == "UN"@ + listen_text(name),
        !name.contains('\0') && !name.contains('"') ==> listen_text(name) == "LISTEN \""@ + name
            + seq!['"'],
        !name.contains('\0') && !name.contains('"') ==> unlisten_text(name) == "UNLISTEN \""@
            + name + seq!['"'],
{
    reveal_strlit("\"");
    reveal_strlit("UN");
    reveal_strlit("LISTEN \"");
    reveal_strlit("UNLISTEN \"");
    assert("\""@ =~= seq!['"']);
    assert("UNLISTEN \""@ =~= "UN"@ + "LISTEN \""@);
    law_quoted_body(name, truncated(name));
    law_truncated_stops_at_first_nul(name);
    assert(unlisten_text(name) =~= "UN"@ + listen_text(name));
}

/// The statements for two lists of names follow each other; those for one name are its statement
/// and a semicolon; those for no name are empty.
pub proof fn law_subscribing_statements_follow_each_other(
    front: Seq<Seq<char>>,
    back: Seq<Seq<char>>,
    name: Seq<char>,
)
    ensures
        listen_all_text(Seq::empty()) == Seq::<char>::empty(),
        listen_all_text(seq![name]) == listen_text(name) + seq![';'],
        listen_all_text(front + back) == listen_all_text(front) + listen_all_text(back),
    decreases back.len(),
{
    reveal_with_fuel(listen_all_text, 2);
    reveal_strlit("\"");
    reveal_strlit("\";");
    assert(seq![name].drop_last() =~= Seq::<Seq<char>>::empty());
    assert("\";"@ =~= "\""@ + seq![';']);
    assert(listen_all_text(seq![name]) =~= listen_text(name) + seq![';']);
    if back.len() == 0 {
        assert(front + back =~= front);
        assert(listen_all_text(front) + listen_all_text(back) =~= listen_all_text(front));
    } else {
        law_subscribing_statements_follow_each_other(front, back.drop_last(), name);
        assert((front + back).drop_last() =~= front + back.drop_last());
        assert((front + back).last() == back.last());
        assert(listen_all_text(front + back) =~= listen_all_text(front) + listen_all_text(back));
    }
}

/// Dropping a name from a list takes out its first occurrence and leaves every other entry in its
/// order; a list that does not hold the name stays as it is.
pub proof fn law_first_occurrence_is_dropped(
    front: Seq<Seq<char>>,
    name: Seq<char>,
    back: Seq<Seq<char>>,
)
    requires
        !front.contains(name),
    ensures
        without_first(front, name) == front,
        without_first(front + seq![name] + back, name) == front + back,
    decreases front.len(),
{
    let whole = front + seq![name] + back;
    if front.len() == 0 {
        assert(whole.drop_first() =~= front + back);
    } else {
        assert(front[0] != name);
        assert forall|i: int| 0 <= i < front.drop_first().len() implies front.drop_first()[i]
            != name by {
            assert(front[i + 1] != name);
        }
        law_first_occurrence_is_dropped(front.drop_first(), name, back);
        assert(whole.drop_first() =~= front.drop_first() + seq![name] + back);
        assert(front =~= seq![front[0]] + front.drop_first());
        assert(front + back =~= seq![front[0]] + (front.drop_first() + back));
    }
}

} // verus!
