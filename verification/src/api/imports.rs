//! What a message module imports, and how it spells a name it cannot import.
//!
//! Each message and its declared structs share one module. A declared struct
//! can collide with a name its own module imports, so every name that does not
//! clash is imported and a clashing one is spelled in full where it is used.

use vstd::prelude::*;

use crate::api::symbol::{is_importable, symbol_absolute, symbol_name, symbol_origin, ExternalSymbol};
use crate::schema::Message;
use crate::strings::{cat3, owned};

verus! {

/// Whether a message's module declares an item spelled `name`: the message
/// type itself, or one of the structs it declares.
pub open spec fn declares_name(message: &Message, name: Seq<char>) -> bool {
    message.name.text@ == name || exists|i: int|
        0 <= i < message.structs.declarations@.len() && {
            let d = #[trigger] message.structs.declarations@[i];
            d.name.spelling@ == name
        }
}

/// How `message`'s module writes a symbol.
pub open spec fn spelling(message: &Message, symbol: ExternalSymbol) -> Seq<char> {
    match symbol_absolute(symbol) {
        Some(path) => path,
        None => if declares_name(message, symbol_name(symbol)) {
            symbol_origin(symbol)->0 + "::"@ + symbol_name(symbol)
        } else {
            symbol_name(symbol)
        },
    }
}

/// The names of `symbols` that `message`'s module can bind, in order.
pub open spec fn bindable(message: &Message, symbols: Seq<ExternalSymbol>) -> Seq<Seq<char>>
    decreases symbols.len(),
{
    if symbols.len() == 0 {
        Seq::empty()
    } else {
        let rest = bindable(message, symbols.drop_first());
        let s = symbols[0];
        if is_importable(s) && !declares_name(message, symbol_name(s)) {
            seq![symbol_name(s)] + rest
        } else {
            rest
        }
    }
}

/// Whether this message's module declares an item of this name.
pub fn declares(message: &Message, name: &str) -> (r: bool)
    ensures
        r == declares_name(message, name@),
{
    let wanted = owned(name);
    if message.name.text == wanted {
        return true;
    }
    let declarations = &message.structs.declarations;
    let mut i: usize = 0;
    while i < declarations.len()
        invariant
            i <= declarations@.len(),
            declarations == &message.structs.declarations,
            wanted@ == name@,
            message.name.text@ != name@,
            forall|k: int| 0 <= k < i ==> {
                let d = #[trigger] declarations@[k];
                d.name.spelling@ != name@
            },
        decreases declarations@.len() - i,
    {
        let spelled = declarations[i].name.rust_type();
        if spelled == wanted {
            return true;
        }
        i = i + 1;
    }
    false
}

/// Spells one symbol as `message`'s module must write it.
pub fn spell(message: &Message, symbol: ExternalSymbol) -> (r: String)
    ensures
        r@ == spelling(message, symbol),
{
    if let Some(absolute) = symbol.absolute() {
        return owned(absolute);
    }
    let name = symbol.name();
    match symbol.origin() {
        Some(origin) => {
            if declares(message, name) {
                return cat3(origin, "::", name);
            }
            owned(name)
        },
        None => {
            // Every symbol without a path is a prelude name with one.
            assert(symbol_absolute(symbol) is Some);
            owned(name)
        },
    }
}

/// Filters an import list down to the names this module can actually bind.
pub fn importable(message: &Message, symbols: &[ExternalSymbol]) -> (r: Vec<&'static str>)
    ensures
        r@.map_values(|s: &'static str| s@) == bindable(message, symbols@),
{
    let mut kept: Vec<&'static str> = Vec::new();
    let mut i = symbols.len();
    let mut reversed: Vec<&'static str> = Vec::new();
    // Walk from the back so each kept name is known to precede the rest.
    while i > 0
        invariant
            i <= symbols@.len(),
            reversed@.map_values(|s: &'static str| s@).reverse() == bindable(message, symbols@.skip(i as int)),
        decreases i,
    {
        i = i - 1;
        let symbol = symbols[i];
        let ghost before = reversed@;
        proof {
            assert(symbols@.skip(i as int).drop_first() =~= symbols@.skip(i + 1));
            assert(symbols@.skip(i as int)[0] == symbol);
        }
        let name = symbol.name();
        let keep = match symbol.origin() {
            Some(_) => !declares(message, name),
            None => false,
        };
        if keep {
            reversed.push(name);
            proof {
                assert(reversed@.map_values(|s: &'static str| s@) =~= before.map_values(|s: &'static str| s@).push(name@));
                assert(reversed@.map_values(|s: &'static str| s@).reverse()
                    =~= seq![name@] + before.map_values(|s: &'static str| s@).reverse());
            }
        }
    }
    let mut j = reversed.len();
    while j > 0
        invariant
            j <= reversed@.len(),
            kept@.map_values(|s: &'static str| s@) == reversed@.map_values(|s: &'static str| s@).skip(j as int).reverse(),
        decreases j,
    {
        j = j - 1;
        let ghost before = kept@;
        kept.push(reversed[j]);
        proof {
            let all = reversed@.map_values(|s: &'static str| s@);
            assert(all.skip(j as int).reverse() =~= all.skip(j + 1).reverse().push(all[j as int]));
            assert(kept@.map_values(|s: &'static str| s@) =~= before.map_values(|s: &'static str| s@).push(all[j as int]));
        }
    }
    proof {
        assert(symbols@.skip(0) =~= symbols@);
        assert(reversed@.map_values(|s: &'static str| s@).skip(0) =~= reversed@.map_values(|s: &'static str| s@));
    }
    kept
}

} // verus!
