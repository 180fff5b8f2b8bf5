use pe_editor::pe::{into_bytes, DosHeader, Editor, EditorError};

/// The first bytes of a 32-bit DLL built by MSVC: its MS-DOS header, then the start of the stub.
fn hello_32_dll_bytes() -> Vec<u8> {
    let mut bytes: Vec<u8> = vec![
        0x4d, 0x5a, 0x90, 0x00, 0x03, 0x00, 0x00, 0x00, 0x04, 0x00, 0x00, 0x00, 0xff, 0xff, 0x00,
        0x00, 0xb8, 0x00, 0x00, 0x00, 0x00, 0x00, 0x00, 0x00, 0x40, 0x00, 0x00, 0x00,
    ];
    bytes.extend_from_slice(&[0u8; 32]);
    bytes.extend_from_slice(&[0xf8, 0x00, 0x00, 0x00]);
    bytes.extend_from_slice(&[0x0e, 0x1f, 0xba, 0x0e, 0x00, 0xb4, 0x09, 0xcd, 0x21]);
    bytes
}

#[test]
fn valid_new_editor() {
    let editor = Editor::from_bytes(hello_32_dll_bytes());

    assert!(editor.is_ok());
}

#[test]
fn invalid_new_editor() {
    let editor = Editor::from_bytes(Vec::new());

    assert!(editor.is_err());
}

#[test]
fn correct_dos_header() {
    let editor = Editor::from_bytes(hello_32_dll_bytes()).unwrap();
    let dos_header = Editor::parse_dos_header(&editor.bytes);
    let expected_dos_header = DosHeader {
        e_magic: into_bytes(0x5a4d as u16),
        e_cblp: into_bytes(0x90 as u16),
        e_cp: into_bytes(0x3 as u16),
        e_crlc: into_bytes(0x0 as u16),
        e_cparhdr: into_bytes(0x4 as u16),
        e_minalloc: into_bytes(0x0 as u16),
        e_maxalloc: into_bytes(0xffff as u16),
        e_ss: into_bytes(0x0 as u16),
        e_sp: into_bytes(0xb8 as u16),
        e_csum: into_bytes(0x0 as u16),
        e_ip: into_bytes(0x0 as u16),
        e_cs: into_bytes(0x0 as u16),
        e_lfarlc: into_bytes(0x40 as u16),
        e_ovno: into_bytes(0x0 as u16),
        e_res: into_bytes(0x0 as u64),
        e_oemid: into_bytes(0x0 as u16),
        e_oeminfo: into_bytes(0x0 as u16),
        e_res2: [0u8; 20],
        e_lfanew: into_bytes(0xf8 as u32),
    };

    assert_eq!(dos_header, expected_dos_header);
    assert_eq!(editor.dos_header, expected_dos_header);
}

#[test]
fn editor_keeps_the_bytes() {
    let bytes = hello_32_dll_bytes();
    let editor = Editor::from_bytes(bytes.clone()).unwrap();
    assert_eq!(editor.bytes, bytes);
}

#[test]
fn too_short_file_is_refused() {
    match Editor::from_bytes(vec![0x4d]) {
        Err(EditorError::InvalidFile(msg)) => assert_eq!(msg, "file is not long enough"),
        _ => panic!("a one-byte file must be refused"),
    }
}

#[test]
fn file_without_signature_is_refused() {
    let mut bytes = hello_32_dll_bytes();
    bytes[1] = 0x00;
    match Editor::from_bytes(bytes) {
        Err(EditorError::InvalidFile(msg)) => assert_eq!(msg, "file is not a windows executable"),
        _ => panic!("a file without MZ must be refused"),
    }
    match Editor::from_bytes(vec![0x5a, 0x4d]) {
        Err(EditorError::InvalidFile(msg)) => assert_eq!(msg, "file is not a windows executable"),
        _ => panic!("ZM is not MZ"),
    }
}

#[test]
fn header_of_exactly_64_bytes() {
    let mut bytes = hello_32_dll_bytes();
    bytes.truncate(64);
    let editor = Editor::from_bytes(bytes).unwrap();
    assert_eq!(editor.dos_header.e_lfanew, [0x00, 0x00, 0x00, 0xf8]);
}

#[test]
fn header_ignores_bytes_after_the_first_64() {
    let mut longer = hello_32_dll_bytes();
    longer.extend_from_slice(&[0xaa; 100]);
    let short = Editor::parse_dos_header(&hello_32_dll_bytes()[..64]);
    let long = Editor::parse_dos_header(&longer);
    assert_eq!(short, long);
}

#[test]
fn header_fields_are_reversed_little_endian() {
    let bytes: Vec<u8> = (0u8..64).collect();
    let h = Editor::parse_dos_header(&bytes);
    assert_eq!(h.e_magic, [1, 0]);
    assert_eq!(h.e_ovno, [27, 26]);
    assert_eq!(h.e_res, [35, 34, 33, 32, 31, 30, 29, 28]);
    assert_eq!(h.e_oeminfo, [39, 38]);
    assert_eq!(h.e_lfanew, [63, 62, 61, 60]);
    let mut res2 = [0u8; 20];
    for i in 0..20 {
        res2[i] = 59 - i as u8;
    }
    assert_eq!(h.e_res2, res2);
}

#[test]
fn header_holds_first_64_bytes_exactly() {
    let bytes: Vec<u8> = (100u8..164).collect();
    let h = Editor::parse_dos_header(&bytes);
    let mut back: Vec<u8> = Vec::new();
    let fields: [&[u8]; 19] = [
        &h.e_magic, &h.e_cblp, &h.e_cp, &h.e_crlc, &h.e_cparhdr, &h.e_minalloc, &h.e_maxalloc,
        &h.e_ss, &h.e_sp, &h.e_csum, &h.e_ip, &h.e_cs, &h.e_lfarlc, &h.e_ovno, &h.e_res,
        &h.e_oemid, &h.e_oeminfo, &h.e_res2, &h.e_lfanew,
    ];
    for f in fields {
        let mut f = f.to_vec();
        f.reverse();
        back.extend(f);
    }
    assert_eq!(back, bytes);
}

#[test]
fn signature_gives_magic_number() {
    let editor = Editor::from_bytes(hello_32_dll_bytes()).unwrap();
    assert_eq!(editor.dos_header.e_magic, into_bytes(0x5a4du16));
    assert_eq!(editor.dos_header.e_magic, [0x5a, 0x4d]);
}
