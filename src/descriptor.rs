//! Type descriptors: `B C D F I J S Z V`, `L<name>;` and `[<elem>`, and method
//! descriptors `(Arg*)Ret`. Array types collapse to `Reference`.
use vstd::prelude::*;
use crate::error::VmError;
use crate::value::Type;

verus! {

/// The parsed shape of a method descriptor.
#[derive(Clone, Debug, PartialEq)]
pub struct Signature {
    pub return_type: Type,
    pub arguments: Vec<Type>,
}

/// The type of a one-letter descriptor.
pub open spec fn primitive_of(c: char) -> Option<Type> {
    if c == 'B' {
        Some(Type::Byte)
    } else if c == 'C' {
        Some(Type::Char)
    } else if c == 'D' {
        Some(Type::Double)
    } else if c == 'F' {
        Some(Type::Float)
    } else if c == 'I' {
        Some(Type::Int)
    } else if c == 'J' {
        Some(Type::Long)
    } else if c == 'S' {
        Some(Type::Short)
    } else if c == 'Z' {
        Some(Type::Boolean)
    } else if c == 'V' {
        Some(Type::Void)
    } else {
        None
    }
}

/// The type named by a whole field descriptor.
pub open spec fn type_of_descriptor(s: Seq<char>) -> Option<Type> {
    if s.len() == 1 && primitive_of(s[0]) is Some {
        primitive_of(s[0])
    } else if s.len() > 0 && (s[0] == '[' || s[0] == 'L') {
        Some(Type::Reference)
    } else {
        None
    }
}

/// The first index from `i` on that holds `;`.
pub open spec fn semicolon_from(s: Seq<char>, i: int) -> Option<int>
    decreases s.len() - i,
{
    if i < 0 || i >= s.len() {
        None
    } else if s[i] == ';' {
        Some(i)
    } else {
        semicolon_from(s, i + 1)
    }
}

/// The first index from `i` on that does not hold `[`.
pub open spec fn skip_brackets(s: Seq<char>, i: int) -> int
    decreases s.len() - i,
{
    if 0 <= i < s.len() && s[i] == '[' {
        skip_brackets(s, i + 1)
    } else {
        i
    }
}

/// The type of the descriptor token that starts at `i`, and the index after it.
pub open spec fn token_at(s: Seq<char>, i: int) -> Option<(Type, int)> {
    let j = skip_brackets(s, i);
    if j < 0 || j >= s.len() {
        None
    } else if s[j] == 'L' {
        match semicolon_from(s, j) {
            Some(k) => Some((Type::Reference, k + 1)),
            None => None,
        }
    } else {
        match primitive_of(s[j]) {
            Some(t) => if j == i {
                Some((t, j + 1))
            } else {
                Some((Type::Reference, j + 1))
            },
            None => None,
        }
    }
}

/// Walks the tokens from `i`: those before `)` are arguments, the last one after
/// it is the return type.
pub open spec fn parse_from(s: Seq<char>, i: int, in_ret: bool, args: Seq<Type>, ret: Option<Type>) -> Option<
    (Seq<Type>, Type),
>
    decreases s.len() - i,
{
    if i < 0 || i >= s.len() {
        if in_ret && ret is Some {
            Some((args, ret.unwrap()))
        } else {
            None
        }
    } else if s[i] == ')' {
        if in_ret {
            None
        } else {
            parse_from(s, i + 1, true, args, ret)
        }
    } else {
        match token_at(s, i) {
            None => None,
            Some((t, next)) => if next <= i || next > s.len() {
                None
            } else if in_ret {
                if ret is Some {
                    None
                } else {
                    parse_from(s, next, true, args, Some(t))
                }
            } else {
                parse_from(s, next, false, args.push(t), ret)
            },
        }
    }
}

/// The arguments and return type of a method descriptor `(Arg*)Ret`: it opens
/// with `(`, closes the arguments with one `)`, and ends with one return token.
pub open spec fn signature_of(s: Seq<char>) -> Option<(Seq<Type>, Type)> {
    if s.len() > 0 && s[0] == '(' {
        parse_from(s, 1, false, Seq::empty(), None)
    } else {
        None
    }
}

proof fn lemma_skip_brackets_ge(s: Seq<char>, i: int)
    ensures
        skip_brackets(s, i) >= i,
        0 <= i ==> skip_brackets(s, i) <= s.len() || skip_brackets(s, i) == i,
        0 <= skip_brackets(s, i) < s.len() ==> s[skip_brackets(s, i)] != '[',
    decreases s.len() - i,
{
    if 0 <= i < s.len() && s[i] == '[' {
        lemma_skip_brackets_ge(s, i + 1);
    }
}

proof fn lemma_semicolon_from(s: Seq<char>, i: int)
    ensures
        semicolon_from(s, i) matches Some(k) ==> i <= k < s.len() && s[k] == ';',
    decreases s.len() - i,
{
    if 0 <= i < s.len() && s[i] != ';' {
        lemma_semicolon_from(s, i + 1);
    }
}

/// The characters of a string.
pub fn chars_of(s: &str) -> (r: Vec<char>)
    ensures
        r@ == s@,
{
    let n = s.unicode_len();
    let mut r: Vec<char> = Vec::new();
    let mut i: usize = 0;
    while i < n
        invariant
            n == s@.len(),
            i <= n,
            r@ == s@.subrange(0, i as int),
        decreases n - i,
    {
        r.push(s.get_char(i));
        i = i + 1;
        assert(r@ =~= s@.subrange(0, i as int));
    }
    assert(r@ =~= s@);
    r
}

fn primitive_exec(c: char) -> (r: Option<Type>)
    ensures
        r == primitive_of(c),
{
    if c == 'B' {
        Some(Type::Byte)
    } else if c == 'C' {
        Some(Type::Char)
    } else if c == 'D' {
        Some(Type::Double)
    } else if c == 'F' {
        Some(Type::Float)
    } else if c == 'I' {
        Some(Type::Int)
    } else if c == 'J' {
        Some(Type::Long)
    } else if c == 'S' {
        Some(Type::Short)
    } else if c == 'Z' {
        Some(Type::Boolean)
    } else if c == 'V' {
        Some(Type::Void)
    } else {
        None
    }
}

/// The type named by a field descriptor.
pub fn parse_type(ftype: &str) -> (r: Result<Type, VmError>)
    ensures
        type_of_descriptor(ftype@) matches Some(t) ==> r == Ok::<Type, VmError>(t),
        type_of_descriptor(ftype@) is None ==> r == Err::<Type, VmError>(VmError::DescriptorParse),
{
    let cs = chars_of(ftype);
    if cs.len() == 1 {
        if let Some(t) = primitive_exec(cs[0]) {
            return Ok(t);
        }
    }
    if cs.len() > 0 && (cs[0] == '[' || cs[0] == 'L') {
        Ok(Type::Reference)
    } else {
        Err(VmError::DescriptorParse)
    }
}

fn token_exec(s: &Vec<char>, i: usize) -> (r: Option<(Type, usize)>)
    requires
        i < s@.len(),
    ensures
        match token_at(s@, i as int) {
            Some((t, n)) => r == Some((t, n as usize)) && i < n <= s@.len(),
            None => r is None,
        },
{
    let mut j = i;
    while j < s.len() && s[j] == '['
        invariant
            i <= j <= s@.len(),
            skip_brackets(s@, i as int) == skip_brackets(s@, j as int),
        decreases s@.len() - j,
    {
        j = j + 1;
    }
    proof {
        lemma_skip_brackets_ge(s@, i as int);
    }
    if j >= s.len() {
        return None;
    }
    if s[j] == 'L' {
        let mut k = j;
        while k < s.len() && s[k] != ';'
            invariant
                j <= k <= s@.len(),
                semicolon_from(s@, j as int) == semicolon_from(s@, k as int),
            decreases s@.len() - k,
        {
            k = k + 1;
        }
        proof {
            lemma_semicolon_from(s@, k as int);
        }
        if k >= s.len() {
            None
        } else {
            Some((Type::Reference, k + 1))
        }
    } else {
        match primitive_exec(s[j]) {
            Some(t) => if j == i {
                Some((t, j + 1))
            } else {
                Some((Type::Reference, j + 1))
            },
            None => None,
        }
    }
}

/// The signature of a method descriptor `(Arg*)Ret`.
pub fn parse_signature(signature: &String) -> (r: Result<Signature, VmError>)
    ensures
        signature_of(signature@) matches Some((args, ret)) ==> r matches Ok(sig)
            && sig.arguments@ == args && sig.return_type == ret,
        signature_of(signature@) is None ==> r == Err::<Signature, VmError>(VmError::DescriptorParse),
{
    let s = chars_of(signature.as_str());
    if s.len() == 0 || s[0] != '(' {
        return Err(VmError::DescriptorParse);
    }
    let mut args: Vec<Type> = Vec::new();
    let mut ret: Option<Type> = None;
    let mut in_ret = false;
    let mut i: usize = 1;
    while i < s.len()
        invariant
            1 <= i,
            parse_from(s@, i as int, in_ret, args@, ret) == signature_of(signature@),
        decreases s@.len() - i,
    {
        if s[i] == ')' {
            if in_ret {
                return Err(VmError::DescriptorParse);
            }
            in_ret = true;
            i = i + 1;
        } else {
            match token_exec(&s, i) {
                None => {
                    return Err(VmError::DescriptorParse);
                },
                Some((t, next)) => {
                    if in_ret {
                        if ret.is_some() {
                            return Err(VmError::DescriptorParse);
                        }
                        ret = Some(t);
                    } else {
                        args.push(t);
                    }
                    i = next;
                },
            }
        }
    }
    match ret {
        Some(t) => {
            if in_ret {
                Ok(Signature { return_type: t, arguments: args })
            } else {
                Err(VmError::DescriptorParse)
            }
        },
        None => Err(VmError::DescriptorParse),
    }
}

} // verus!
