//! The symbols that the generator makes up: those of the `static`
//! segment, one cell for each pair of a source file and an index, whatever
//! function uses it; those of the return addresses, one for each call
//! site; and those of labels inside functions.

use vstd::prelude::*;
use crate::blocks::{fixed_cell, return_symbol, scoped_label, static_symbol};
use crate::code_writer::State;
use crate::command::Segment;
use crate::instruction::Op;
use crate::text::{decimal, is_digit, lemma_decimal_digits, lemma_decimal_injective};

verus! {

/// A text that ends in a dot and a numeral is cut in one way only: if two
/// such texts are equal, so are the parts before the dot and the numerals.
proof fn lemma_dot_numeral_split(a: Seq<char>, x: Seq<char>, b: Seq<char>, y: Seq<char>)
    requires
        a + seq!['.'] + x == b + seq!['.'] + y,
        forall|i: int| 0 <= i < x.len() ==> is_digit(#[trigger] x[i]),
        forall|i: int| 0 <= i < y.len() ==> is_digit(#[trigger] y[i]),
    ensures
        a == b,
        x == y,
{
    let s = a + seq!['.'] + x;
    let t = b + seq!['.'] + y;
    assert(s.len() == a.len() + 1 + x.len());
    assert(t.len() == b.len() + 1 + y.len());
    if x.len() < y.len() {
        let i = a.len() as int;
        assert(s[i] == '.');
        assert(t[i] == y[i - b.len() - 1]);
        assert(is_digit(y[i - b.len() - 1]));
        assert(false);
    }
    if y.len() < x.len() {
        let i = b.len() as int;
        assert(t[i] == '.');
        assert(s[i] == x[i - a.len() - 1]);
        assert(is_digit(x[i - a.len() - 1]));
        assert(false);
    }
    assert(a =~= b) by {
        assert forall|i: int| 0 <= i < a.len() implies a[i] == b[i] by {
            assert(s[i] == a[i]);
            assert(t[i] == b[i]);
        }
    }
    assert(x =~= y) by {
        assert forall|i: int| 0 <= i < x.len() implies x[i] == y[i] by {
            assert(s[a.len() + 1 + i] == x[i]);
            assert(t[b.len() + 1 + i] == y[i]);
        }
    }
}

/// Two entries of `static` segments have the same symbol only if they are
/// the same entry of the same file: different files, or different indices,
/// give different symbols.
pub proof fn law_static_symbols_distinct(
    file1: Seq<char>,
    index1: nat,
    file2: Seq<char>,
    index2: nat,
)
    requires
        static_symbol(file1, index1) == static_symbol(file2, index2),
    ensures
        file1 == file2,
        index1 == index2,
{
    reveal_strlit(".");
    assert("."@ =~= seq!['.']);
    lemma_decimal_digits(index1);
    lemma_decimal_digits(index2);
    lemma_dot_numeral_split(file1, decimal(index1), file2, decimal(index2));
    lemma_decimal_injective(index1, index2);
}

/// The cell of a `static` entry depends on the source file and the index
/// alone: two generators that translate the same file use the same symbol
/// for the same index, whatever function each of them is in, whatever they
/// have written and however many calls they have numbered.
pub proof fn law_static_shared_within_file(s1: State, s2: State, index: int)
    requires
        s1.file == s2.file,
        index >= 0,
    ensures
        fixed_cell(Segment::Static, index, s1.file) == fixed_cell(Segment::Static, index, s2.file),
        fixed_cell(Segment::Static, index, s1.file) == Some(
            Op::Symbol(static_symbol(s1.file, index as nat)),
        ),
{
}

/// Translating a command other than a change of file keeps the file, and
/// with it the cells of the `static` segment: entering a function does not
/// change them.
pub proof fn law_static_kept_across_functions(s: State, name: Seq<char>, locals: int, index: nat)
    ensures
        s.function(name, locals).file == s.file,
        static_symbol(s.function(name, locals).file, index) == static_symbol(s.file, index),
{
}

/// Two generators that translate different files address different cells
/// with the same index of `static`.
pub proof fn law_static_separate_across_files(s1: State, s2: State, index: nat)
    requires
        s1.file != s2.file,
    ensures
        static_symbol(s1.file, index) != static_symbol(s2.file, index),
{
    if static_symbol(s1.file, index) == static_symbol(s2.file, index) {
        law_static_symbols_distinct(s1.file, index, s2.file, index);
    }
}

/// Two texts that begin alike and are equal end alike.
proof fn lemma_same_prefix(prefix: Seq<char>, x: Seq<char>, y: Seq<char>)
    requires
        prefix + x == prefix + y,
    ensures
        x == y,
{
    assert(x =~= y) by {
        assert(x.len() == y.len()) by {
            assert((prefix + x).len() == prefix.len() + x.len());
            assert((prefix + y).len() == prefix.len() + y.len());
        }
        assert forall|i: int| 0 <= i < x.len() implies x[i] == y[i] by {
            assert((prefix + x)[prefix.len() + i] == x[i]);
            assert((prefix + y)[prefix.len() + i] == y[i]);
        }
    }
}

/// Every call site has a return address of its own: two call sites with
/// the same symbol are the same call site.
pub proof fn law_return_symbols_distinct(site1: nat, site2: nat)
    requires
        return_symbol(site1) == return_symbol(site2),
    ensures
        site1 == site2,
{
    lemma_same_prefix("Return."@, decimal(site1), decimal(site2));
    lemma_decimal_injective(site1, site2);
}

/// Translating a call takes the next call site: the symbol of its return
/// address differs from those of all calls translated before.
pub proof fn law_call_sites_fresh(s: State, name: Seq<char>, args: int, earlier: nat)
    requires
        earlier < s.calls,
    ensures
        s.call(name, args).calls == s.calls + 1,
        return_symbol(earlier) != return_symbol(s.calls),
{
    if return_symbol(earlier) == return_symbol(s.calls) {
        law_return_symbols_distinct(earlier, s.calls);
    }
}

/// Whether a text holds the character `c`.
pub open spec fn holds_char(s: Seq<char>, c: char) -> bool {
    exists|i: int| 0 <= i < s.len() && s[i] == c
}

/// A label inside a function never has the symbol of a return address, and
/// it has the symbol of a `static` entry only if the name of the source
/// file holds a dollar sign: the symbol of such a label holds one, and
/// those of return addresses and of `static` entries of other files hold
/// none.
pub proof fn law_scoped_labels_apart(
    function: Seq<char>,
    label: Seq<char>,
    site: nat,
    file: Seq<char>,
    index: nat,
)
    ensures
        scoped_label(Some(function), label) != return_symbol(site),
        !holds_char(file, '$') ==> scoped_label(Some(function), label) != static_symbol(
            file,
            index,
        ),
{
    reveal_strlit("$");
    reveal_strlit(".");
    reveal_strlit("Return.");
    let scoped = scoped_label(Some(function), label);
    let at = function.len() as int;
    assert("$"@.len() == 1 && "$"@[0] == '$');
    assert("."@.len() == 1 && "."@[0] == '.');
    assert("Return."@.len() == 7);
    assert(scoped.len() == function.len() + 1 + label.len());
    assert(scoped[at] == '$');
    lemma_decimal_digits(site);
    lemma_decimal_digits(index);
    if scoped == return_symbol(site) {
        let r = return_symbol(site);
        assert(r.len() == 7 + decimal(site).len());
        if at < 7 {
            assert(r[at] == "Return."@[at]);
        } else {
            assert(r[at] == decimal(site)[at - 7]);
            assert(is_digit(decimal(site)[at - 7]));
        }
        assert(false);
    }
    if !holds_char(file, '$') && scoped == static_symbol(file, index) {
        let t = static_symbol(file, index);
        assert(t.len() == file.len() + 1 + decimal(index).len());
        if at < file.len() {
            assert(t[at] == file[at]);
            assert(holds_char(file, '$'));
        } else if at == file.len() {
            assert(t[at] == '.');
        } else {
            assert(t[at] == decimal(index)[at - file.len() - 1]);
            assert(is_digit(decimal(index)[at - file.len() - 1]));
        }
        assert(false);
    }
}

} // verus!
