//! The base library: chunk names, plugin instructions, the opaque key.
use vstd::prelude::*;
use crate::text::{opt_view, chars_of, push_char, string_of_range};

verus! {

/// The longest source text used whole as a chunk's name.
pub const CHUNK_NAME_LIMIT: usize = 40;

/// The name a chunk loaded from source gets: the name given, or the source itself, cut to
/// its first 40 characters followed by `...` when it is longer.
pub open spec fn chunk_name_spec(code: Seq<char>, chunkname: Option<Seq<char>>) -> Seq<char> {
    match chunkname {
        Some(n) => n,
        None => if code.len() > CHUNK_NAME_LIMIT {
            code.take(CHUNK_NAME_LIMIT as int) + "..."@
        } else {
            code
        },
    }
}

/// The name of a chunk loaded from `code` (see `chunk_name_spec`).
pub fn chunk_name(code: &str, chunkname: Option<&str>) -> (r: String)
    ensures
        r@ == chunk_name_spec(code@, opt_view(chunkname)),
{
    match chunkname {
        Some(n) => n.to_owned(),
        None => {
            let chars = chars_of(code);
            if chars.len() > CHUNK_NAME_LIMIT {
                let mut s = string_of_range(&chars, 0, CHUNK_NAME_LIMIT);
                push_char(&mut s, '.');
                push_char(&mut s, '.');
                push_char(&mut s, '.');
                proof {
                    reveal_strlit("...");
                    assert(chars@.subrange(0, CHUNK_NAME_LIMIT as int) == code@.take(
                        CHUNK_NAME_LIMIT as int,
                    ));
                }
                s
            } else {
                code.to_owned()
            }
        },
    }
}

/// What a plugin asks of the runtime when it stops.
#[derive(Debug)]
pub enum PluginInstruction {
    /// Stop with a failure and this message.
    Fail(String),
    /// Stop normally with this message.
    Exit(String),
}

impl PluginInstruction {
    /// The message.
    pub fn get_message(&self) -> (r: &String)
        ensures
            match self {
                PluginInstruction::Fail(m) => r == m,
                PluginInstruction::Exit(m) => r == m,
            },
    {
        match self {
            PluginInstruction::Fail(m) => m,
            PluginInstruction::Exit(m) => m,
        }
    }

    pub fn is_fail(&self) -> (r: bool)
        ensures
            r == (self is Fail),
    {
        match self {
            PluginInstruction::Fail(_) => true,
            _ => false,
        }
    }

    pub fn is_exit(&self) -> (r: bool)
        ensures
            r == (self is Exit),
    {
        match self {
            PluginInstruction::Exit(_) => true,
            _ => false,
        }
    }
}

/// A key that scripts can use but not forge: it carries nothing.
#[derive(Debug)]
pub struct OpaqueKey(());

impl OpaqueKey {
    pub fn new() -> (k: OpaqueKey) {
        OpaqueKey(())
    }
}

} // verus!
