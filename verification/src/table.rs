use vstd::prelude::*;

verus! {

/// The fixed function table, seen as a mapping from identifier name to the
/// number of arguments the function consumes. The table never holds two
/// entries with the same name, which this formulation makes immediate: it is
/// a function of the name. The numeric implementations of the entries live
/// with the evaluator, outside this crate's verified core.
///
/// Entries: `pi`, `e`, `golden` take no argument; `abs`, `sin`, `cos`, `tan`,
/// `round`, `floor`, `ceil`, `fib`, `sqrt` take one; `log`, `min`, `max`
/// take two.
pub open spec fn arity_of(name: Seq<char>) -> Option<u8> {
    if name.len() == 2 && name[0] == 'p' && name[1] == 'i' {
        Some(0u8)
    } else if name.len() == 1 && name[0] == 'e' {
        Some(0u8)
    } else if name.len() == 6 && name[0] == 'g' && name[1] == 'o' && name[2] == 'l' && name[3]
        == 'd' && name[4] == 'e' && name[5] == 'n' {
        Some(0u8)
    } else if name.len() == 3 && name[0] == 'a' && name[1] == 'b' && name[2] == 's' {
        Some(1u8)
    } else if name.len() == 3 && name[0] == 's' && name[1] == 'i' && name[2] == 'n' {
        Some(1u8)
    } else if name.len() == 3 && name[0] == 'c' && name[1] == 'o' && name[2] == 's' {
        Some(1u8)
    } else if name.len() == 3 && name[0] == 't' && name[1] == 'a' && name[2] == 'n' {
        Some(1u8)
    } else if name.len() == 5 && name[0] == 'r' && name[1] == 'o' && name[2] == 'u' && name[3]
        == 'n' && name[4] == 'd' {
        Some(1u8)
    } else if name.len() == 5 && name[0] == 'f' && name[1] == 'l' && name[2] == 'o' && name[3]
        == 'o' && name[4] == 'r' {
        Some(1u8)
    } else if name.len() == 4 && name[0] == 'c' && name[1] == 'e' && name[2] == 'i' && name[3]
        == 'l' {
        Some(1u8)
    } else if name.len() == 3 && name[0] == 'f' && name[1] == 'i' && name[2] == 'b' {
        Some(1u8)
    } else if name.len() == 4 && name[0] == 's' && name[1] == 'q' && name[2] == 'r' && name[3]
        == 't' {
        Some(1u8)
    } else if name.len() == 3 && name[0] == 'l' && name[1] == 'o' && name[2] == 'g' {
        Some(2u8)
    } else if name.len() == 3 && name[0] == 'm' && name[1] == 'i' && name[2] == 'n' {
        Some(2u8)
    } else if name.len() == 3 && name[0] == 'm' && name[1] == 'a' && name[2] == 'x' {
        Some(2u8)
    } else {
        None
    }
}

/// Looks an identifier up in the function table: its arity, or `None` for a
/// name the table does not hold.
pub fn arity_lookup(name: &Vec<char>) -> (r: Option<u8>)
    ensures
        r == arity_of(name@),
{
    let n = name.len();
    if n == 2 && name[0] == 'p' && name[1] == 'i' {
        Some(0)
    } else if n == 1 && name[0] == 'e' {
        Some(0)
    } else if n == 6 && name[0] == 'g' && name[1] == 'o' && name[2] == 'l' && name[3] == 'd'
        && name[4] == 'e' && name[5] == 'n' {
        Some(0)
    } else if n == 3 && name[0] == 'a' && name[1] == 'b' && name[2] == 's' {
        Some(1)
    } else if n == 3 && name[0] == 's' && name[1] == 'i' && name[2] == 'n' {
        Some(1)
    } else if n == 3 && name[0] == 'c' && name[1] == 'o' && name[2] == 's' {
        Some(1)
    } else if n == 3 && name[0] == 't' && name[1] == 'a' && name[2] == 'n' {
        Some(1)
    } else if n == 5 && name[0] == 'r' && name[1] == 'o' && name[2] == 'u' && name[3] == 'n'
        && name[4] == 'd' {
        Some(1)
    } else if n == 5 && name[0] == 'f' && name[1] == 'l' && name[2] == 'o' && name[3] == 'o'
        && name[4] == 'r' {
        Some(1)
    } else if n == 4 && name[0] == 'c' && name[1] == 'e' && name[2] == 'i' && name[3] == 'l' {
        Some(1)
    } else if n == 3 && name[0] == 'f' && name[1] == 'i' && name[2] == 'b' {
        Some(1)
    } else if n == 4 && name[0] == 's' && name[1] == 'q' && name[2] == 'r' && name[3] == 't' {
        Some(1)
    } else if n == 3 && name[0] == 'l' && name[1] == 'o' && name[2] == 'g' {
        Some(2)
    } else if n == 3 && name[0] == 'm' && name[1] == 'i' && name[2] == 'n' {
        Some(2)
    } else if n == 3 && name[0] == 'm' && name[1] == 'a' && name[2] == 'x' {
        Some(2)
    } else {
        None
    }
}

} // verus!
