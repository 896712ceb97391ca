use vstd::prelude::*;
use crate::lang::data_type::{DataType, SDataType};
use crate::lang::command::view_datas;
use crate::lang::error::RuntimeError;
use crate::lang::text::{byte_pos, chars_of, string_remove, string_insert};
use vstd::utf8::{encode_utf8, encode_scalar};

verus! {

/// The index an integer accessor stands for: its value taken as a `usize`
/// (a negative value wraps around).
pub open spec fn accessor_index(i: int) -> int {
    (i as usize) as int
}

/// What reading the item at `accessor` of `target` gives: the character of
/// a string or the item of an array at an integer accessor.
pub open spec fn sp_get_item(accessor: SDataType, target: SDataType) -> Result<SDataType, RuntimeError> {
    match accessor {
        SDataType::Integer(i) => {
            let k = accessor_index(i);
            match target {
                SDataType::String(s) => if k < s.len() {
                    Ok(SDataType::Char(s[k]))
                } else {
                    Err(RuntimeError::CannotAccessWithAccessor)
                },
                SDataType::Array(a) => if k < a.len() {
                    Ok(a[k])
                } else {
                    Err(RuntimeError::CannotAccessWithAccessor)
                },
                _ => Err(RuntimeError::CannotAccessWithAccessor),
            }
        },
        _ => Err(RuntimeError::InvalidAccessor),
    }
}

fn char_item(c: char) -> (r: DataType)
    ensures
        r@ == SDataType::Char(c),
{
    DataType::Char(c)
}

/// The item at `accessor` in `target`.
pub fn get_item_in_collection(accessor: DataType, target: DataType) -> (r: Result<
    DataType,
    RuntimeError,
>)
    ensures
        match sp_get_item(accessor@, target@) {
            Ok(d) => r matches Ok(x) && x@ == d,
            Err(e) => r == Err::<DataType, RuntimeError>(e),
        },
{
    if let DataType::Integer(num) = accessor {
        let index = num as usize;
        if let DataType::String(string) = &target {
            let chars = chars_of(string.as_str());
            assert(index as int == accessor_index(num as int));
            if index < chars.len() {
                return Ok(char_item(chars[index]));
            }
        } else if let DataType::Array(array) = &target {
            if index < array.len() {
                assert(view_datas(array@)[index as int] == array@[index as int]@);
                return Ok(array[index].clone());
            }
        }
        return Err(RuntimeError::CannotAccessWithAccessor);
    }
    Err(RuntimeError::InvalidAccessor)
}

/// Where writing panics: a string gets a character at a byte index at
/// which no character starts.
pub open spec fn update_panics(accessor: SDataType, target: SDataType, value: SDataType) -> bool {
    match (accessor, target, value) {
        (SDataType::Integer(i), SDataType::String(s), SDataType::Char(_)) => !exists|k: int|
            0 <= k < s.len() && byte_pos(s, k) == accessor_index(i),
        _ => false,
    }
}

/// The character of `s` that starts at byte `idx`.
pub open spec fn char_at_byte(s: Seq<char>, idx: int) -> int {
    choose|k: int| 0 <= k < s.len() && byte_pos(s, k) == idx
}

/// What writing `value` at `accessor` of `target` gives: the new target and
/// the outcome. A string takes a character at a byte index, an array an
/// item at an index.
pub open spec fn sp_update(accessor: SDataType, target: SDataType, value: SDataType) -> (
    SDataType,
    Result<(), RuntimeError>,
) {
    match accessor {
        SDataType::Integer(i) => {
            let idx = accessor_index(i);
            match target {
                SDataType::String(s) => match value {
                    SDataType::Char(c) => (SDataType::String(s.update(char_at_byte(s, idx), c)), Ok(())),
                    _ => (target, Err(RuntimeError::CannotInsertToString)),
                },
                SDataType::Array(a) => if idx < a.len() {
                    (SDataType::Array(a.update(idx, value)), Ok(()))
                } else {
                    (target, Err(RuntimeError::CannotAccessWithAccessor))
                },
                _ => (target, Err(RuntimeError::CannotAccessWithAccessor)),
            }
        },
        _ => (target, Err(RuntimeError::InvalidAccessor)),
    }
}

/// Sets the item at `accessor` of `target` to `value`: a character of a
/// string (whose accessor is a byte index) or an item of an array.
pub fn update_elememnt_in_collection(accessor: DataType, target: &mut DataType, value: DataType) -> (r:
    Result<(), RuntimeError>)
    requires
        !update_panics(accessor@, old(target)@, value@),
    ensures
        (final(target)@, r) == sp_update(accessor@, old(target)@, value@),
{
    if let DataType::Integer(num) = accessor {
        let index = num as usize;
        if let DataType::String(string) = target {
            let c = match value {
                DataType::Char(c) => c,
                _ => return Err(RuntimeError::CannotInsertToString),
            };
            let ghost s = string@;
            let ghost k = char_at_byte(s, index as int);
            assert(0 <= k < s.len() && byte_pos(s, k) == index);
            string_remove(string, index);
            assert(string@ == s.remove(k));
            assert(string@.take(k) =~= s.take(k));
            assert(0 <= k <= string@.len() && byte_pos(string@, k) == index);
            let ghost s1 = string@;
            string_insert(string, index, c);
            assert(string@ == s1.insert(k, c));
            assert(string@ =~= s.update(k, c));
            return Ok(());
        } else if let DataType::Array(array) = target {
            if index < array.len() {
                let ghost a = view_datas(array@);
                array.set(index, value);
                assert(view_datas(array@) =~= a.update(index as int, value@));
                return Ok(());
            }
        }
        return Err(RuntimeError::CannotAccessWithAccessor);
    }
    Err(RuntimeError::InvalidAccessor)
}

/// Reading an array item just written gives the written value back.
pub proof fn law_array_read_after_update(a: Seq<SDataType>, i: int, v: SDataType)
    requires
        0 <= accessor_index(i) < a.len(),
    ensures
        sp_update(SDataType::Integer(i), SDataType::Array(a), v).1 is Ok,
        sp_get_item(SDataType::Integer(i), sp_update(SDataType::Integer(i), SDataType::Array(a), v).0)
            == Ok::<SDataType, RuntimeError>(v),
{
}

/// Writing a character at the byte index where character `k` of a string
/// starts, then reading character `k`, gives the written character back.
pub proof fn law_string_read_after_update(s: Seq<char>, i: int, c: char)
    requires
        !update_panics(SDataType::Integer(i), SDataType::String(s), SDataType::Char(c)),
        s.len() <= usize::MAX,
    ensures
        sp_update(SDataType::Integer(i), SDataType::String(s), SDataType::Char(c)).1 is Ok,
        sp_get_item(
            SDataType::Integer(char_at_byte(s, accessor_index(i))),
            sp_update(SDataType::Integer(i), SDataType::String(s), SDataType::Char(c)).0,
        ) == Ok::<SDataType, RuntimeError>(SDataType::Char(c)),
{
    let k = char_at_byte(s, accessor_index(i));
    assert(0 <= k < s.len());
    assert(accessor_index(k) == k);
}

/// At most one character starts at a given byte index, so a write at a
/// byte index changes one well defined character.
pub proof fn law_one_char_per_byte(s: Seq<char>, j: int, k: int)
    requires
        0 <= j <= s.len(),
        0 <= k <= s.len(),
        byte_pos(s, j) == byte_pos(s, k),
    ensures
        j == k,
{
    if j < k {
        lemma_byte_pos_strict(s, j, k);
    } else if k < j {
        lemma_byte_pos_strict(s, k, j);
    }
}

/// A later character starts at a later byte.
pub proof fn lemma_byte_pos_strict(s: Seq<char>, j: int, k: int)
    requires
        0 <= j < k <= s.len(),
    ensures
        byte_pos(s, j) < byte_pos(s, k),
{
    assert(s.take(k) =~= s.take(j) + s.subrange(j, k));
    lemma_encode_concat(s.take(j), s.subrange(j, k));
    lemma_encode_nonempty(s.subrange(j, k));
}

/// Encoding a concatenation concatenates the encodings.
pub proof fn lemma_encode_concat(a: Seq<char>, b: Seq<char>)
    ensures
        encode_utf8(a + b) == encode_utf8(a) + encode_utf8(b),
    decreases a.len(),
{
    if a.len() == 0 {
        assert(a + b =~= b);
        assert(encode_utf8(a) =~= Seq::<u8>::empty());
        assert(encode_utf8(a) + encode_utf8(b) =~= encode_utf8(b));
    } else {
        assert((a + b).drop_first() =~= a.drop_first() + b);
        assert((a + b)[0] == a[0]);
        lemma_encode_concat(a.drop_first(), b);
        assert(encode_scalar(a[0] as u32) + (encode_utf8(a.drop_first()) + encode_utf8(b))
            =~= (encode_scalar(a[0] as u32) + encode_utf8(a.drop_first())) + encode_utf8(b));
    }
}

/// A character takes at least one byte.
pub proof fn lemma_encode_nonempty(a: Seq<char>)
    requires
        a.len() > 0,
    ensures
        encode_utf8(a).len() >= 1,
{
    assert(encode_scalar(a[0] as u32).len() >= 1);
}

} // verus!
