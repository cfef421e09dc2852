use shspectr::recorder::btf::{resolve_task_field_offsets, Btf, BTF_KIND_STRUCT, BTF_MAGIC};

/// Build BTF data holding one struct whose fields lie 8 bytes apart.
fn make_btf(struct_name: &str, fields: &[&str]) -> Vec<u8> {
    let mut str_table = vec![0u8];

    let struct_name_off = str_table.len() as u32;
    str_table.extend_from_slice(struct_name.as_bytes());
    str_table.push(0);

    let mut field_name_offs = Vec::new();
    for field in fields {
        field_name_offs.push(str_table.len() as u32);
        str_table.extend_from_slice(field.as_bytes());
        str_table.push(0);
    }

    let vlen = fields.len() as u32;
    let info = (BTF_KIND_STRUCT << 24) | vlen;
    let struct_size = (fields.len() * 8) as u32;

    let mut type_section = Vec::new();
    type_section.extend_from_slice(&struct_name_off.to_le_bytes());
    type_section.extend_from_slice(&info.to_le_bytes());
    type_section.extend_from_slice(&struct_size.to_le_bytes());

    for (i, &name_off) in field_name_offs.iter().enumerate() {
        let bit_offset = (i as u32) * 64;
        type_section.extend_from_slice(&name_off.to_le_bytes());
        type_section.extend_from_slice(&0u32.to_le_bytes());
        type_section.extend_from_slice(&bit_offset.to_le_bytes());
    }

    let hdr_len: u32 = 24;
    let type_off: u32 = 0;
    let type_len = type_section.len() as u32;
    let str_off = type_len;
    let str_len = str_table.len() as u32;

    let mut data = Vec::new();
    data.extend_from_slice(&BTF_MAGIC.to_le_bytes());
    data.push(1);
    data.push(0);
    data.extend_from_slice(&hdr_len.to_le_bytes());
    data.extend_from_slice(&type_off.to_le_bytes());
    data.extend_from_slice(&type_len.to_le_bytes());
    data.extend_from_slice(&str_off.to_le_bytes());
    data.extend_from_slice(&str_len.to_le_bytes());

    data.extend_from_slice(&type_section);
    data.extend_from_slice(&str_table);

    data
}

#[test]
fn struct_field_offset_finds_first_field() {
    let data = make_btf("my_struct", &["alpha", "beta", "gamma"]);
    let btf = Btf::from_bytes(data).unwrap();
    assert_eq!(btf.struct_field_offset("my_struct", "alpha").unwrap(), 0);
}

#[test]
fn struct_field_offset_finds_later_field() {
    let data = make_btf("my_struct", &["alpha", "beta", "gamma"]);
    let btf = Btf::from_bytes(data).unwrap();
    assert_eq!(btf.struct_field_offset("my_struct", "beta").unwrap(), 8);
    assert_eq!(btf.struct_field_offset("my_struct", "gamma").unwrap(), 16);
}

#[test]
fn struct_field_offset_missing_field() {
    let data = make_btf("my_struct", &["alpha"]);
    let btf = Btf::from_bytes(data).unwrap();
    let err = btf.struct_field_offset("my_struct", "missing").unwrap_err();
    let msg = err.message();
    assert!(
        msg.contains("field 'missing' not found"),
        "unexpected error: {msg}"
    );
}

#[test]
fn struct_field_offset_missing_struct() {
    let data = make_btf("my_struct", &["alpha"]);
    let btf = Btf::from_bytes(data).unwrap();
    let err = btf
        .struct_field_offset("other_struct", "alpha")
        .unwrap_err();
    let msg = err.message();
    assert!(
        msg.contains("struct 'other_struct' not found"),
        "unexpected error: {msg}"
    );
}

#[test]
fn from_bytes_rejects_short_data() {
    assert!(Btf::from_bytes(vec![0; 10]).is_err());
}

#[test]
fn from_bytes_rejects_bad_magic() {
    let mut data = vec![0u8; 24];
    data[0] = 0xFF;
    data[1] = 0xFF;
    let err = Btf::from_bytes(data).unwrap_err();
    assert!(err.message().contains("bad BTF magic"));
}

#[test]
fn bad_magic_message_names_the_value() {
    let mut data = vec![0u8; 24];
    data[0] = 0xFF;
    data[1] = 0xFF;
    let err = Btf::from_bytes(data).unwrap_err();
    assert_eq!(err.message(), "bad BTF magic: 0xffff");
}

#[test]
fn extra_bytes_struct_members() {
    assert_eq!(Btf::extra_bytes(4, 3), 36);
    assert_eq!(Btf::extra_bytes(4, 0), 0);
}

#[test]
fn extra_bytes_other_kinds() {
    assert_eq!(Btf::extra_bytes(1, 0), 4);
    assert_eq!(Btf::extra_bytes(3, 0), 12);
    assert_eq!(Btf::extra_bytes(2, 0), 0);
    assert_eq!(Btf::extra_bytes(6, 2), 16);
}

#[test]
fn struct_field_offset_with_multiple_structs() {
    let mut str_table = vec![0u8];

    let first_name_off = str_table.len() as u32;
    str_table.extend_from_slice(b"other_struct\0");
    let first_field_off = str_table.len() as u32;
    str_table.extend_from_slice(b"x\0");

    let second_name_off = str_table.len() as u32;
    str_table.extend_from_slice(b"target_struct\0");
    let second_field_off = str_table.len() as u32;
    str_table.extend_from_slice(b"y\0");

    let mut type_section = Vec::new();

    let info1 = (BTF_KIND_STRUCT << 24) | 1;
    type_section.extend_from_slice(&first_name_off.to_le_bytes());
    type_section.extend_from_slice(&info1.to_le_bytes());
    type_section.extend_from_slice(&8u32.to_le_bytes());
    type_section.extend_from_slice(&first_field_off.to_le_bytes());
    type_section.extend_from_slice(&0u32.to_le_bytes());
    type_section.extend_from_slice(&0u32.to_le_bytes());

    let info2 = (BTF_KIND_STRUCT << 24) | 1;
    type_section.extend_from_slice(&second_name_off.to_le_bytes());
    type_section.extend_from_slice(&info2.to_le_bytes());
    type_section.extend_from_slice(&24u32.to_le_bytes());
    type_section.extend_from_slice(&second_field_off.to_le_bytes());
    type_section.extend_from_slice(&0u32.to_le_bytes());
    type_section.extend_from_slice(&128u32.to_le_bytes());

    let hdr_len: u32 = 24;
    let type_len = type_section.len() as u32;
    let str_off = type_len;
    let str_len = str_table.len() as u32;

    let mut data = Vec::new();
    data.extend_from_slice(&BTF_MAGIC.to_le_bytes());
    data.push(1);
    data.push(0);
    data.extend_from_slice(&hdr_len.to_le_bytes());
    data.extend_from_slice(&0u32.to_le_bytes());
    data.extend_from_slice(&type_len.to_le_bytes());
    data.extend_from_slice(&str_off.to_le_bytes());
    data.extend_from_slice(&str_len.to_le_bytes());
    data.extend_from_slice(&type_section);
    data.extend_from_slice(&str_table);

    let btf = Btf::from_bytes(data).unwrap();
    assert_eq!(btf.struct_field_offset("target_struct", "y").unwrap(), 16);
    assert_eq!(btf.struct_field_offset("other_struct", "x").unwrap(), 0);
}

#[test]
fn from_bytes_rejects_truncated_sections() {
    let mut data = make_btf("my_struct", &["alpha"]);
    data[12..16].copy_from_slice(&u32::MAX.to_le_bytes());
    let err = Btf::from_bytes(data).unwrap_err();
    let msg = err.message();
    assert!(msg.contains("BTF type section") || msg.contains("extend beyond"));
}

#[test]
fn struct_field_offset_rejects_bad_string_offset() {
    let mut data = make_btf("my_struct", &["alpha"]);
    let type_section_start = 24usize;
    data[type_section_start..type_section_start + 4].copy_from_slice(&999u32.to_le_bytes());
    let btf = Btf::from_bytes(data).unwrap();
    let err = btf.struct_field_offset("my_struct", "alpha").unwrap_err();
    assert!(err.message().contains("string offset"));
}

#[test]
fn btf_string_reads_names_from_the_table() {
    let btf = Btf::from_bytes(make_btf("my_struct", &["alpha"])).unwrap();
    assert_eq!(btf.string(1).unwrap(), "my_struct");
    assert_eq!(btf.string(11).unwrap(), "alpha");
    assert_eq!(btf.string(0).unwrap(), "");
}

#[test]
fn task_offsets_are_refused_without_task_struct() {
    let err = resolve_task_field_offsets(make_btf("my_struct", &["alpha"])).unwrap_err();
    assert!(err.message().contains("task_struct"), "{}", err.message());
}

/// Build BTF data holding several structs whose fields lie 8 bytes apart.
fn make_btf_structs(structs: &[(&str, &[&str])]) -> Vec<u8> {
    let mut str_table = vec![0u8];
    let mut type_section = Vec::new();
    for (name, fields) in structs {
        let name_off = str_table.len() as u32;
        str_table.extend_from_slice(name.as_bytes());
        str_table.push(0);
        let info = (BTF_KIND_STRUCT << 24) | fields.len() as u32;
        type_section.extend_from_slice(&name_off.to_le_bytes());
        type_section.extend_from_slice(&info.to_le_bytes());
        type_section.extend_from_slice(&((fields.len() * 8) as u32).to_le_bytes());
        for (i, field) in fields.iter().enumerate() {
            let field_off = str_table.len() as u32;
            str_table.extend_from_slice(field.as_bytes());
            str_table.push(0);
            type_section.extend_from_slice(&field_off.to_le_bytes());
            type_section.extend_from_slice(&0u32.to_le_bytes());
            type_section.extend_from_slice(&((i as u32) * 64).to_le_bytes());
        }
    }
    let type_len = type_section.len() as u32;
    let mut data = Vec::new();
    data.extend_from_slice(&BTF_MAGIC.to_le_bytes());
    data.push(1);
    data.push(0);
    data.extend_from_slice(&24u32.to_le_bytes());
    data.extend_from_slice(&0u32.to_le_bytes());
    data.extend_from_slice(&type_len.to_le_bytes());
    data.extend_from_slice(&type_len.to_le_bytes());
    data.extend_from_slice(&(str_table.len() as u32).to_le_bytes());
    data.extend_from_slice(&type_section);
    data.extend_from_slice(&str_table);
    data
}

fn kernel_like_structs() -> Vec<(&'static str, &'static [&'static str])> {
    vec![
        ("task_struct", &["real_parent", "tgid", "cred", "signal", "files"][..]),
        ("cred", &["uid", "gid", "euid"][..]),
        ("signal_struct", &["tty"][..]),
        ("tty_struct", &["magic", "index"][..]),
        ("files_struct", &["count", "fdt"][..]),
        ("fdtable", &["max_fds", "fd"][..]),
        ("file", &["f_inode"][..]),
        ("inode", &["i_mode", "i_uid", "i_rdev"][..]),
    ]
}

#[test]
fn task_offsets_resolve_from_complete_btf() {
    let o = resolve_task_field_offsets(make_btf_structs(&kernel_like_structs())).unwrap();
    assert_eq!(o.task_real_parent, 0);
    assert_eq!(o.task_tgid, 8);
    assert_eq!(o.task_cred, 16);
    assert_eq!(o.cred_euid, 16);
    assert_eq!(o.task_signal, 24);
    assert_eq!(o.signal_tty, 0);
    assert_eq!(o.tty_index, 8);
    assert_eq!(o.task_files, 32);
    assert_eq!(o.files_fdt, 8);
    assert_eq!(o.fdt_fd, 8);
    assert_eq!(o.file_inode, 0);
    assert_eq!(o.inode_rdev, 16);
}

#[test]
fn task_offsets_name_the_first_missing_field() {
    let mut structs = kernel_like_structs();
    structs[1] = ("cred", &["uid", "gid"][..]);
    let err = resolve_task_field_offsets(make_btf_structs(&structs)).unwrap_err();
    assert_eq!(
        err.message(),
        "cred.euid: field 'euid' not found in struct 'cred'"
    );
}
