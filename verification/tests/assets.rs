use std::io::Write;
use trypanophobe::assets::{
    concat_chunks, find_member, load_model_assets, select_model_assets, unpack_tar_xz, ArchiveMember,
    AssetError,
};

fn compress(tar_buf: &[u8]) -> Vec<u8> {
    let mut xz_buf = Vec::new();
    let mut enc = xz2::write::XzEncoder::new(&mut xz_buf, 6);
    enc.write_all(tar_buf).unwrap();
    enc.finish().unwrap();
    xz_buf
}

fn fixture_tar_xz() -> Vec<u8> {
    let mut tar_buf = Vec::new();
    {
        let mut builder = tar::Builder::new(&mut tar_buf);
        let mut model = tar::Header::new_gnu();
        model.set_size(5);
        model.set_cksum();
        builder.append_data(&mut model, "model.onnx", b"model" as &[u8]).unwrap();
        let mut tok = tar::Header::new_gnu();
        tok.set_size(4);
        tok.set_cksum();
        builder.append_data(&mut tok, "tokenizer.json", b"tok!" as &[u8]).unwrap();
        builder.finish().unwrap();
    }
    compress(&tar_buf)
}

#[test]
fn unpack_tar_xz_reads_fixture() {
    let (model, tok) = unpack_tar_xz(&fixture_tar_xz()).unwrap();
    assert_eq!(model, b"model");
    assert_eq!(tok, b"tok!");
}

#[test]
fn unpack_skips_empty_tar_entry_names() {
    let mut tar_buf = Vec::new();
    {
        let mut builder = tar::Builder::new(&mut tar_buf);
        let mut dir = tar::Header::new_gnu();
        dir.set_entry_type(tar::EntryType::Directory);
        dir.set_size(0);
        dir.set_cksum();
        builder.append(&dir, &[][..]).unwrap();
        let mut model = tar::Header::new_gnu();
        model.set_size(3);
        model.set_cksum();
        builder.append_data(&mut model, "model.onnx", b"abc" as &[u8]).unwrap();
        let mut tok = tar::Header::new_gnu();
        tok.set_size(2);
        tok.set_cksum();
        builder.append_data(&mut tok, "tokenizer.json", b"ok" as &[u8]).unwrap();
        builder.finish().unwrap();
    }
    let (model, tok) = unpack_tar_xz(&compress(&tar_buf)).unwrap();
    assert_eq!(model, b"abc");
    assert_eq!(tok, b"ok");
}

#[test]
fn unpack_errors_when_model_missing() {
    let mut tar_buf = Vec::new();
    {
        let mut builder = tar::Builder::new(&mut tar_buf);
        let mut tok = tar::Header::new_gnu();
        tok.set_size(1);
        tok.set_cksum();
        builder.append_data(&mut tok, "tokenizer.json", b"x" as &[u8]).unwrap();
        builder.finish().unwrap();
    }
    let err = unpack_tar_xz(&compress(&tar_buf)).unwrap_err();
    assert!(err.message().contains("model.onnx missing"));
}

#[test]
fn unpack_uses_file_names_and_last_duplicate() {
    let mut tar_buf = Vec::new();
    {
        let mut builder = tar::Builder::new(&mut tar_buf);
        for (path, data) in [
            ("assets/model.onnx", b"old" as &[u8]),
            ("tokenizer.json", b"tk" as &[u8]),
            ("other/model.onnx", b"new" as &[u8]),
        ] {
            let mut h = tar::Header::new_gnu();
            h.set_size(data.len() as u64);
            h.set_cksum();
            builder.append_data(&mut h, path, data).unwrap();
        }
        builder.finish().unwrap();
    }
    let (model, tok) = unpack_tar_xz(&compress(&tar_buf)).unwrap();
    assert_eq!(model, b"new");
    assert_eq!(tok, b"tk");
}

#[test]
fn invalid_xz_is_a_decompression_error() {
    let err = unpack_tar_xz(b"this is not xz data").unwrap_err();
    assert!(matches!(err, AssetError::Decompress { .. }));
    assert_eq!(err.message(), "xz decompress");
}

#[test]
fn chunks_are_joined_in_order() {
    let parts: [&[u8]; 3] = [b"ab", b"", b"cde"];
    assert_eq!(concat_chunks(&parts), b"abcde".to_vec());
    assert!(concat_chunks(&[]).is_empty());
}

#[test]
fn assets_load_from_split_chunks() {
    let data = fixture_tar_xz();
    let mid = data.len() / 2;
    let parts: [&[u8]; 2] = [&data[..mid], &data[mid..]];
    let (model, tok) = load_model_assets(&parts).unwrap();
    assert_eq!(model, b"model");
    assert_eq!(tok, b"tok!");
}

#[test]
fn selection_reports_missing_tokenizer() {
    let members = vec![ArchiveMember { name: "model.onnx".to_string(), data: b"m".to_vec() }];
    let err = select_model_assets(&members).unwrap_err();
    assert!(matches!(err, AssetError::TokenizerMissing));
    assert_eq!(err.message(), "tokenizer.json missing from archive");
    assert_eq!(find_member(&members, "model.onnx"), Some(b"m".to_vec()));
    assert_eq!(find_member(&members, "none"), None);
}

#[test]
fn unreadable_tar_is_an_entry_error() {
    let err = unpack_tar_xz(&compress(b"not a tar archive")).unwrap_err();
    assert!(matches!(err, AssetError::Entry { .. }));
    assert_eq!(err.message(), "tar entry");
}

#[test]
fn empty_tar_misses_the_model() {
    let err = unpack_tar_xz(&compress(b"")).unwrap_err();
    assert!(matches!(err, AssetError::ModelMissing));
}
