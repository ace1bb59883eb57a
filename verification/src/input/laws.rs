//! What completion suggests, in terms of the names of the commands.

use crate::event::{KeyCode, Modifiers};
use crate::input::{
    edit_key, first_chars, has_white, modifier_bits, names_with, rest_chars, shown_next, suggested,
    CompletionState, EditKey, Input,
};
use crate::protocol::{Completer, Kit, Protocol};
use crate::server::{law_first_command_answers, lemma_not_named};
use crate::text::{begins_with, first_word, law_first_word_ends_at_white_space, white_space};
use vstd::prelude::*;
use vstd::string::*;

verus! {

/// The confirmed part of a line and the rest make up the line, and the confirmed
/// part is as long as it was said to be, or all there is.
pub proof fn law_confirmed_and_rest_make_line(s: Seq<char>, n: int)
    requires
        0 <= n,
    ensures
        first_chars(s, n) + rest_chars(s, n) == s,
        n <= s.len() ==> first_chars(s, n).len() == n,
        n > s.len() ==> rest_chars(s, n).len() == 0,
{
    assert(first_chars(s, n) + rest_chars(s, n) =~= s);
}

/// While the first word is typed, all commands whose names begin with it are
/// suggested, in their order, and nothing else; before it is begun, nothing is.
pub proof fn law_names_are_suggested<K: Kit>(
    protocols: Seq<Protocol<K>>,
    confirmed: Seq<char>,
    options: Seq<Seq<char>>,
)
    requires
        suggested(protocols, confirmed, options),
        forall|i: int| 0 <= i < confirmed.len() ==> !white_space(#[trigger] confirmed[i]),
    ensures
        confirmed.len() == 0 ==> options.len() == 0,
        confirmed.len() > 0 ==> options == protocols.filter(
            |p: Protocol<K>|
                p.name@.len() >= confirmed.len() && p.name@.take(confirmed.len() as int)
                    == confirmed,
        ).map_values(|p: Protocol<K>| p.name@),
        confirmed.len() > 0 ==> forall|i: int|
            0 <= i < options.len() ==> begins_with(#[trigger] options[i], confirmed),
{
    let r = law_first_word_ends_at_white_space(confirmed);
    if r.0 > 0 {
        assert(white_space(confirmed.take(r.0)[0]));
        assert(confirmed.take(r.0)[0] == confirmed[0]);
    }
    assert(confirmed.subrange(0, confirmed.len() as int) =~= confirmed);
    assert(first_word(confirmed) == confirmed);
    lemma_names_filter(protocols, confirmed, protocols.len() as int);
    assert(protocols.take(protocols.len() as int) =~= protocols);
    lemma_names_begin(protocols, confirmed, protocols.len() as int);
}

proof fn lemma_names_filter<K: Kit>(protocols: Seq<Protocol<K>>, prefix: Seq<char>, n: int)
    requires
        0 <= n <= protocols.len(),
    ensures
        names_with(protocols, prefix, n) == protocols.take(n).filter(
            |p: Protocol<K>|
                p.name@.len() >= prefix.len() && p.name@.take(prefix.len() as int) == prefix,
        ).map_values(|p: Protocol<K>| p.name@),
    decreases n,
{
    let fits = |p: Protocol<K>|
        p.name@.len() >= prefix.len() && p.name@.take(prefix.len() as int) == prefix;
    let name = |p: Protocol<K>| p.name@;
    reveal(Seq::filter);
    if n > 0 {
        lemma_names_filter(protocols, prefix, n - 1);
        let part = protocols.take(n);
        assert(part.drop_last() =~= protocols.take(n - 1));
        let rest = protocols.take(n - 1).filter(fits);
        assert(rest.push(part.last()).map_values(name) =~= rest.map_values(name).push(
            name(part.last()),
        ));
    }
    assert(names_with(protocols, prefix, n) =~= protocols.take(n).filter(fits).map_values(name));
}

proof fn lemma_names_begin<K: Kit>(protocols: Seq<Protocol<K>>, prefix: Seq<char>, n: int)
    ensures
        forall|i: int|
            0 <= i < names_with(protocols, prefix, n).len() ==> begins_with(
                #[trigger] names_with(protocols, prefix, n)[i],
                prefix,
            ),
    decreases n,
{
    if n > 0 {
        lemma_names_begin(protocols, prefix, n - 1);
        let (rest, all) = (names_with(protocols, prefix, n - 1), names_with(protocols, prefix, n));
        assert forall|i: int| 0 <= i < all.len() implies begins_with(#[trigger] all[i], prefix) by {
            if i < rest.len() {
                assert(all[i] == rest[i]);
            }
        }
    }
}

/// After white space the completer of the command that the line begins with is
/// asked, and is shown what is confirmed; of a command that is unknown, or has no
/// completer, nothing is suggested.
pub proof fn law_completer_sees_confirmed_text<K: Kit>(
    protocols: Seq<Protocol<K>>,
    confirmed: Seq<char>,
    options: Seq<Seq<char>>,
    at: int,
    w: int,
)
    requires
        suggested(protocols, confirmed, options),
        0 <= w < confirmed.len(),
        white_space(confirmed[w]),
    ensures
        0 <= at < protocols.len() && protocols[at].name@ == first_word(confirmed) && (forall|j: int|
            0 <= j < at ==> (#[trigger] protocols[j]).name@ != first_word(confirmed)) ==> match protocols[at].completer {
            Some(completer) => completer.completes(confirmed, options),
            None => options.len() == 0,
        },
        (forall|j: int|
            0 <= j < protocols.len() ==> (#[trigger] protocols[j]).name@ != first_word(confirmed))
            ==> options.len() == 0,
{
    let first = first_word(confirmed);
    assert(has_white(confirmed));
    if 0 <= at < protocols.len() && protocols[at].name@ == first && (forall|j: int|
        0 <= j < at ==> (#[trigger] protocols[j]).name@ != first) {
        law_first_command_answers(protocols, first, at);
    }
    if forall|j: int| 0 <= j < protocols.len() ==> (#[trigger] protocols[j]).name@ != first {
        lemma_not_named(protocols, first, 0);
    }
}

/// The first Tab shows the first suggestion, every further one the next, and after
/// the last comes the first again. What is confirmed stays so, and the cursor is at
/// its end. Without suggestions nothing happens.
pub proof fn law_tab_shows_next(
    input: Input,
    comp: CompletionState,
    options: Seq<Seq<char>>,
    input_after: Input,
    comp_after: CompletionState,
)
    requires
        shown_next(input, comp, options, input_after, comp_after),
        options.len() <= usize::MAX,
    ensures
        comp_after.confirmed == comp.confirmed,
        options.len() == 0 ==> input_after == input && comp_after == comp,
        options.len() > 0 ==> {
            let n = options.len();
            &&& comp_after.index matches Some(to)
            &&& to < n
            &&& comp.index is None ==> to == 0
            &&& comp.index matches Some(from) ==> (from + 1 < n ==> to == from + 1)
            &&& comp.index == Some((n - 1) as usize) ==> to == 0
            &&& input_after.value@ == options[to as int]
            &&& comp.confirmed <= input_after.value@.len() ==> input_after.cursor == comp.confirmed
        },
{
    if options.len() > 0 {
        let n = options.len() as int;
        if let Some(from) = comp.index {
            let k = from + 1;
            assert(0 <= k % n < n) by (nonlinear_arith)
                requires
                    n > 0,
                    k >= 0,
            ;
            assert(k < n ==> k % n == k) by (nonlinear_arith)
                requires
                    n > 0,
                    k >= 0,
            ;
            assert(k == n ==> k % n == 0) by (nonlinear_arith)
                requires
                    n > 0,
            ;
        }
    }
}

/// Completing the name of a command and then taking it back leaves what was typed:
/// every suggested name begins with it.
pub proof fn law_esc_after_tab_restores_typed<K: Kit>(
    protocols: Seq<Protocol<K>>,
    input: Input,
    comp: CompletionState,
    options: Seq<Seq<char>>,
    input_after: Input,
    comp_after: CompletionState,
)
    requires
        comp.confirmed == input.value@.len(),
        forall|i: int| 0 <= i < input.value@.len() ==> !white_space(#[trigger] input.value@[i]),
        suggested(protocols, input.value@, options),
        shown_next(input, comp, options, input_after, comp_after),
        options.len() <= usize::MAX,
    ensures
        begins_with(input_after.value@, input.value@),
        first_chars(input_after.value@, comp_after.confirmed as int) == input.value@,
{
    law_names_are_suggested(protocols, input.value@, options);
    law_tab_shows_next(input, comp, options, input_after, comp_after);
    let typed = input.value@;
    assert(typed.take(typed.len() as int) =~= typed);
    if options.len() > 0 {
        assert(begins_with(options[comp_after.index->Some_0 as int], typed));
    }
}

/// Every modifier key has a bit of its own: two sets of keys with the same bits are
/// the same, and at most Shift is held just where the bits are at most one.
pub proof fn law_modifiers_have_bits(a: Modifiers, b: Modifiers)
    ensures
        modifier_bits(a) == modifier_bits(b) ==> a == b,
        modifier_bits(a) <= 1 <==> !a.control && !a.alt && !a.super_key && !a.hyper && !a.meta,
        modifier_bits(a) == 0 <==> !a.shift && !a.control && !a.alt && !a.super_key && !a.hyper
            && !a.meta,
        !a.shift && a.control && !a.alt && !a.super_key && !a.hyper && !a.meta ==> modifier_bits(a)
            == 2,
        !a.shift && !a.control && a.alt && !a.super_key && !a.hyper && !a.meta ==> modifier_bits(a)
            == 4,
{
}

/// The keys that edit a line edit it as what they are, and no other key edits it.
pub proof fn law_edit_keys(c: char, code: KeyCode)
    ensures
        edit_key(KeyCode::Char(c)) == EditKey::Char(c),
        edit_key(KeyCode::Backspace) == EditKey::Backspace,
        edit_key(KeyCode::Delete) == EditKey::Delete,
        edit_key(KeyCode::Left) == EditKey::Left,
        edit_key(KeyCode::Right) == EditKey::Right,
        !(code is Char || code is Backspace || code is Delete || code is Left || code is Right)
            ==> edit_key(code) == EditKey::Inert,
{
}

} // verus!
