//! What the module is made of.

use vstd::prelude::*;

use crate::constants::{
    DEFLATED, DEF_BUF_SIZE, MAX_WBITS, Z_BEST_COMPRESSION, Z_BEST_SPEED, Z_DEFAULT_COMPRESSION,
    Z_NO_COMPRESSION,
};

verus! {

/// A function of the module.
#[derive(Clone, Copy, PartialEq, Eq, Structural, Debug)]
pub enum Function {
    /// `checksum::zlib_crc32`
    Crc32,
    /// `checksum::zlib_adler32`
    Adler32,
    /// `compress::zlib_compress`
    Compress,
    /// `decompress::zlib_decompress`
    Decompress,
    /// `compress::zlib_compressobj`
    CompressObj,
    /// `decompress::zlib_decompressobj`
    DecompressObj,
}

/// A class of the module.
#[derive(Clone, Copy, PartialEq, Eq, Structural, Debug)]
pub enum Class {
    /// `compress::PyCompress`
    Compress,
    /// `decompress::PyDecompress`
    Decompress,
    /// `error::error_class`, the class of `error::ExceptionClass::ZlibError`
    Error,
}

/// What a name in the module stands for.
#[derive(Clone, Copy, PartialEq, Eq, Structural, Debug)]
pub enum Member {
    Function(Function),
    Class(Class),
    Integer(i64),
}

/// A module: its name, and its members by name.
pub struct Module {
    pub name: &'static str,
    pub members: Vec<(&'static str, Member)>,
}

/// The members of the module.
pub open spec fn members() -> Seq<(Seq<char>, Member)> {
    seq![
        ("crc32"@, Member::Function(Function::Crc32)),
        ("adler32"@, Member::Function(Function::Adler32)),
        ("compress"@, Member::Function(Function::Compress)),
        ("decompress"@, Member::Function(Function::Decompress)),
        ("compressobj"@, Member::Function(Function::CompressObj)),
        ("decompressobj"@, Member::Function(Function::DecompressObj)),
        ("Compress"@, Member::Class(Class::Compress)),
        ("Decompress"@, Member::Class(Class::Decompress)),
        ("error"@, Member::Class(Class::Error)),
        ("Z_DEFAULT_COMPRESSION"@, Member::Integer(-1i64)),
        ("Z_NO_COMPRESSION"@, Member::Integer(0)),
        ("Z_BEST_SPEED"@, Member::Integer(1)),
        ("Z_BEST_COMPRESSION"@, Member::Integer(9)),
        ("DEFLATED"@, Member::Integer(8)),
        ("DEF_BUF_SIZE"@, Member::Integer(16384)),
        ("MAX_WBITS"@, Member::Integer(15)),
    ]
}

/// Makes the module.
pub fn make_module() -> (module: Module)
    ensures
        module.name@ == "zlib"@,
        module.members@.len() == members().len(),
        forall|i: int|
            0 <= i < members().len() ==> {
                &&& (#[trigger] module.members@[i]).0@ == members()[i].0
                &&& module.members@[i].1 == members()[i].1
            },
{
    let members: Vec<(&'static str, Member)> = vec![
        ("crc32", Member::Function(Function::Crc32)),
        ("adler32", Member::Function(Function::Adler32)),
        ("compress", Member::Function(Function::Compress)),
        ("decompress", Member::Function(Function::Decompress)),
        ("compressobj", Member::Function(Function::CompressObj)),
        ("decompressobj", Member::Function(Function::DecompressObj)),
        ("Compress", Member::Class(Class::Compress)),
        ("Decompress", Member::Class(Class::Decompress)),
        ("error", Member::Class(Class::Error)),
        ("Z_DEFAULT_COMPRESSION", Member::Integer(Z_DEFAULT_COMPRESSION as i64)),
        ("Z_NO_COMPRESSION", Member::Integer(Z_NO_COMPRESSION as i64)),
        ("Z_BEST_SPEED", Member::Integer(Z_BEST_SPEED as i64)),
        ("Z_BEST_COMPRESSION", Member::Integer(Z_BEST_COMPRESSION as i64)),
        ("DEFLATED", Member::Integer(DEFLATED as i64)),
        ("DEF_BUF_SIZE", Member::Integer(DEF_BUF_SIZE as i64)),
        ("MAX_WBITS", Member::Integer(MAX_WBITS as i64)),
    ];
    Module { name: "zlib", members }
}

} // verus!
