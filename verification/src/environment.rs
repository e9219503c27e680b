//! The variable environment: one flat, mutable mapping from names to
//! runtime values.
//!
//! `define` inserts or silently overwrites; `get` fails with a runtime
//! error naming the variable when the name is absent.  Its mathematical
//! image is a map from byte strings to value images.
use vstd::prelude::*;

use crate::expressions::LiteralValue;
use crate::expressions::ValueV;
use crate::reporter::RuntimeError;
use crate::token::Token;

verus! {

/// The message of the error that an absent name raises.
pub open spec fn undefined_var_msg(name: Seq<u8>) -> Seq<u8> {
    crate::text::msg_undefined_prefix() + name + crate::text::txt_quote()
}

/// The mapping described by a backing sequence of bindings; later
/// bindings shadow earlier ones.
pub open spec fn env_map(s: Seq<(Vec<u8>, LiteralValue)>) -> Map<Seq<u8>, ValueV>
    decreases s.len(),
{
    if s.len() == 0 {
        Map::empty()
    } else {
        env_map(s.drop_last()).insert(s.last().0@, s.last().1@)
    }
}

/// The flat name-to-value store.
pub struct Environment {
    values: Vec<(Vec<u8>, LiteralValue)>,
}

impl View for Environment {
    type V = Map<Seq<u8>, ValueV>;

    closed spec fn view(&self) -> Map<Seq<u8>, ValueV> {
        env_map(self.values@)
    }
}

impl Default for Environment {
    /// A fresh, empty environment.
    fn default() -> (r: Environment)
        ensures
            r@ == Map::<Seq<u8>, ValueV>::empty(),
    {
        Environment { values: Vec::new() }
    }
}

/// Bindings at or after position `i` that avoid the key `k` do not
/// change what the mapping says about `k`.
proof fn lemma_env_map_suffix_absent(s: Seq<(Vec<u8>, LiteralValue)>, k: Seq<u8>, i: int)
    requires
        0 <= i <= s.len(),
        forall|j: int| i <= j < s.len() ==> s[j].0@ != k,
    ensures
        env_map(s).contains_key(k) == env_map(s.take(i)).contains_key(k),
        env_map(s).contains_key(k) ==> env_map(s)[k] == env_map(s.take(i))[k],
    decreases s.len() - i,
{
    if i == s.len() {
        assert(s.take(i) =~= s);
    } else {
        let t = s.drop_last();
        assert(s.last().0@ != k);
        lemma_env_map_suffix_absent(t, k, i);
        assert(t.take(i) =~= s.take(i));
    }
}

impl Environment {
    /// Inserts or silently overwrites: redeclaring a name keeps the new
    /// value and raises no error.
    pub fn define(&mut self, name: Vec<u8>, value: LiteralValue)
        ensures
            final(self)@ == old(self)@.insert(name@, value@),
    {
        let ghost before = self.values@;
        self.values.push((name, value));
        proof {
            assert(self.values@.drop_last() =~= before);
        }
    }

    /// Looks a name up.  Succeeds with the bound value exactly when the
    /// name is present; otherwise fails with a runtime error naming it.
    pub fn get(&self, name: &Token) -> (r: Result<LiteralValue, RuntimeError>)
        ensures
            match r {
                Ok(v) => self@.contains_key(name@.lexeme) && v@ == self@[name@.lexeme],
                Err(e) => !self@.contains_key(name@.lexeme) && e@.line == name@.line
                    && e@.message == undefined_var_msg(name@.lexeme),
            },
    {
        let n = self.values.len();
        let mut i: usize = n;
        while i > 0
            invariant
                0 <= i <= n,
                n == self.values@.len(),
                forall|j: int| i <= j < n ==> self.values@[j].0@ != name@.lexeme,
            decreases i,
        {
            i = i - 1;
            let entry = &self.values[i];
            if crate::bytes::bytes_eq(entry.0.as_slice(), name.lexeme.as_slice()) {
                proof {
                    lemma_env_map_suffix_absent(self.values@, name@.lexeme, i + 1);
                    assert(self.values@.take(i + 1).drop_last() =~= self.values@.take(i as int));
                    assert(self.values@.take(i + 1).last() == self.values@[i as int]);
                }
                return Ok(entry.1.clone());
            }
        }
        proof {
            lemma_env_map_suffix_absent(self.values@, name@.lexeme, 0);
            assert(self.values@.take(0) =~= Seq::<(Vec<u8>, LiteralValue)>::empty());
        }
        let mut message = crate::text::msg_undefined_prefix_vec();
        crate::bytes::push_bytes(&mut message, name.lexeme.as_slice());
        let quote = crate::text::txt_quote_vec();
        crate::bytes::push_bytes(&mut message, quote.as_slice());
        Err(RuntimeError { line: name.line, message })
    }
}

/// A definition binds: immediately after `define(name, value)` a `get`
/// of `name` yields `value`.
pub proof fn lemma_define_then_get(env: Map<Seq<u8>, ValueV>, name: Seq<u8>, value: ValueV)
    ensures
        env.insert(name, value).contains_key(name),
        env.insert(name, value)[name] == value,
{
}

/// Redeclaration overwrites silently: defining a name twice leaves the
/// environment exactly as if only the second definition had happened.
pub proof fn lemma_redeclare_overwrites(
    env: Map<Seq<u8>, ValueV>,
    name: Seq<u8>,
    first: ValueV,
    second: ValueV,
)
    ensures
        env.insert(name, first).insert(name, second) == env.insert(name, second),
{
    assert(env.insert(name, first).insert(name, second) =~= env.insert(name, second));
}

} // verus!
