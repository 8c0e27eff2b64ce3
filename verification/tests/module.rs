use zlib::compress::PyCompress;
use zlib::constants::{
    DEFLATED, DEF_BUF_SIZE, MAX_WBITS, Z_BEST_COMPRESSION, Z_BEST_SPEED, Z_DEFAULT_COMPRESSION,
    Z_NO_COMPRESSION,
};
use zlib::decompress::PyDecompress;
use zlib::module::{make_module, Class, Function, Member};

#[test]
fn the_module_has_its_members() {
    let module = make_module();
    assert_eq!(module.name, "zlib");
    let expected = vec![
        ("crc32", Member::Function(Function::Crc32)),
        ("adler32", Member::Function(Function::Adler32)),
        ("compress", Member::Function(Function::Compress)),
        ("decompress", Member::Function(Function::Decompress)),
        ("compressobj", Member::Function(Function::CompressObj)),
        ("decompressobj", Member::Function(Function::DecompressObj)),
        ("Compress", Member::Class(Class::Compress)),
        ("Decompress", Member::Class(Class::Decompress)),
        ("error", Member::Class(Class::Error)),
        ("Z_DEFAULT_COMPRESSION", Member::Integer(-1)),
        ("Z_NO_COMPRESSION", Member::Integer(0)),
        ("Z_BEST_SPEED", Member::Integer(1)),
        ("Z_BEST_COMPRESSION", Member::Integer(9)),
        ("DEFLATED", Member::Integer(8)),
        ("DEF_BUF_SIZE", Member::Integer(16384)),
        ("MAX_WBITS", Member::Integer(15)),
    ];
    assert_eq!(module.members, expected);
}

#[test]
fn no_name_stands_for_two_things() {
    let members = make_module().members;
    for (i, first) in members.iter().enumerate() {
        for second in &members[i + 1..] {
            assert_ne!(first.0, second.0);
        }
    }
}

#[test]
fn the_numbers_are_those_of_zlib() {
    assert_eq!(Z_DEFAULT_COMPRESSION, libz_sys::Z_DEFAULT_COMPRESSION);
    assert_eq!(Z_NO_COMPRESSION, libz_sys::Z_NO_COMPRESSION);
    assert_eq!(Z_BEST_SPEED, libz_sys::Z_BEST_SPEED);
    assert_eq!(Z_BEST_COMPRESSION, libz_sys::Z_BEST_COMPRESSION);
    assert_eq!(DEFLATED, libz_sys::Z_DEFLATED);
    assert_eq!(DEF_BUF_SIZE, 16 * 1024);
    assert_eq!(MAX_WBITS, 15);
}

#[test]
fn the_classes_have_their_names() {
    assert_eq!(PyCompress::class(), ("zlib", "Compress"));
    assert_eq!(PyDecompress::class(), ("zlib", "Decompress"));
}
