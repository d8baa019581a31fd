use std::io::{Cursor, Read, Write};

use ubi::archive::{extract_binary, locate, tar_reader_for, ArchiveKind, Compression};
use ubi::error::UbiError;
use ubi::tarball::{
    extract_tarball, find_in_listing, prepare, settle, ungzip, whole_or_fault, TarballEntry,
};
use ubi::zipfile::{extract_zip, find_in_members};

fn tarball(paths: &[&[u8]]) -> Vec<u8> {
    let mut builder = tar::Builder::new(Vec::new());
    for path in paths {
        let mut header = tar::Header::new_old();
        header.as_old_mut().name[..path.len()].copy_from_slice(path);
        header.set_size(3);
        header.set_mode(0o644);
        header.set_cksum();
        builder.append(&header, &b"abc"[..]).unwrap();
    }
    builder.into_inner().unwrap()
}

/// The header of a sparse entry with more headers behind it, whose size field is `size`.
fn sparse_header(name: &[u8], size: &[u8; 12]) -> Vec<u8> {
    let mut header = tar::Header::new_gnu();
    header.as_old_mut().name[..name.len()].copy_from_slice(name);
    header.set_entry_type(tar::EntryType::GNUSparse);
    header.set_mode(0o644);
    header.as_old_mut().size = *size;
    let gnu = header.as_gnu_mut().unwrap();
    gnu.isextended = [1];
    gnu.realsize = *b"00000000000\0";
    header.set_cksum();
    header.as_bytes().to_vec()
}

/// An empty sparse entry, with one more header behind the first.
fn sparse_entry(name: &[u8]) -> Vec<u8> {
    let mut entry = sparse_header(name, b"00000000000\0");
    entry.extend_from_slice(&[0; 512]);
    entry
}

/// An entry of type `kind` with these contents.
fn plain_entry(name: &[u8], kind: tar::EntryType, contents: &[u8]) -> Vec<u8> {
    let mut header = tar::Header::new_gnu();
    header.as_old_mut().name[..name.len()].copy_from_slice(name);
    header.set_entry_type(kind);
    header.set_size(contents.len() as u64);
    header.set_mode(0o644);
    header.set_cksum();
    let mut entry = header.as_bytes().to_vec();
    entry.extend_from_slice(contents);
    entry.resize(entry.len().div_ceil(512) * 512, 0);
    entry
}

fn file(name: &[u8], contents: &[u8]) -> Vec<u8> {
    plain_entry(name, tar::EntryType::Regular, contents)
}

/// Records on the entry that follows.
fn records(text: &[u8]) -> Vec<u8> {
    plain_entry(b"records", tar::EntryType::XHeader, text)
}

fn archive(entries: &[Vec<u8>]) -> Vec<u8> {
    let mut data = entries.concat();
    data.extend_from_slice(&[0; 1024]);
    data
}

/// Bytes that cannot be compressed.
fn noise(count: usize) -> Vec<u8> {
    let mut bytes: Vec<u8> = Vec::new();
    let mut state: u32 = 1;
    for _ in 0..count {
        state = state.wrapping_mul(1664525).wrapping_add(1013904223);
        bytes.push((state >> 24) as u8);
    }
    bytes
}

/// The first header of a sparse entry, to stand at index `start`, that declares so many
/// bytes that one more header takes their count to 2^64.
fn bogus_header(start: u64) -> Vec<u8> {
    let mut size = [0; 12];
    size[0] = 0x80;
    size[4..].copy_from_slice(&(u64::MAX - start - 1023).to_be_bytes());
    sparse_header(b"sparse", &size)
}

fn gzip(data: &[u8]) -> Vec<u8> {
    let mut encoder = flate2::write::GzEncoder::new(Vec::new(), flate2::Compression::default());
    encoder.write_all(data).unwrap();
    encoder.finish().unwrap()
}

fn bzip2(data: &[u8]) -> Vec<u8> {
    let mut encoder = bzip2::write::BzEncoder::new(Vec::new(), bzip2::Compression::default());
    encoder.write_all(data).unwrap();
    encoder.finish().unwrap()
}

fn xz(data: &[u8]) -> Vec<u8> {
    let mut encoder = xz::write::XzEncoder::new(Vec::new(), 6);
    encoder.write_all(data).unwrap();
    encoder.finish().unwrap()
}

fn zip_file(names: &[&str]) -> Vec<u8> {
    let mut writer = zip::ZipWriter::new(Cursor::new(Vec::new()));
    for name in names {
        writer.start_file(*name, zip::write::FileOptions::default()).unwrap();
        writer.write_all(b"abc").unwrap();
    }
    writer.finish().unwrap().into_inner()
}

fn entry(compression: Compression, index: usize) -> Result<TarballEntry, UbiError> {
    Ok(TarballEntry { compression, index })
}

#[test]
fn kind_follows_the_name() {
    for name in ["t.tar.gz", "t.tgz", "t.tar.bz", "t.tbz", ".tgz"] {
        assert_eq!(extract_binary(name), ArchiveKind::Tarball, "{}", name);
    }
    assert_eq!(extract_binary("t.zip"), ArchiveKind::Zip);
    assert_eq!(extract_binary("t.gz"), ArchiveKind::Gzip);
    for name in ["t", "t.exe", "t.tar.xz", "t.txz", "t.tar.bz2", "t.tar", "t.ZIP", "zip"] {
        assert_eq!(extract_binary(name), ArchiveKind::Executable, "{}", name);
    }
}

#[test]
fn reader_follows_the_extension() {
    for name in ["t.bz", "t.tbz", "t.tar.bz"] {
        assert_eq!(tar_reader_for(name), Ok(Compression::Bzip2), "{}", name);
    }
    for name in ["t.gz", "t.tgz", "t.tar.gz"] {
        assert_eq!(tar_reader_for(name), Ok(Compression::Gzip), "{}", name);
    }
    for name in ["t.xz", "t.txz", "t.tar.xz"] {
        assert_eq!(tar_reader_for(name), Ok(Compression::Xz), "{}", name);
    }
    for name in ["t", ".tgz", ".tbz"] {
        assert_eq!(tar_reader_for(name), Ok(Compression::Plain), "{}", name);
    }
    let fault = tar_reader_for("t.tar").unwrap_err();
    assert_eq!(fault, UbiError::TarballExtension("tar".to_string()));
    assert_eq!(
        fault.message(),
        "don't know how to uncompress a tarball with extension = tar"
    );
}

#[test]
fn executable_is_found_in_tarballs() {
    let data = tarball(&[b"dir/README.md", b"dir/precious.bak", b"dir/bin/precious", b"precious"]);
    assert_eq!(extract_tarball("t", &data, "precious", false), entry(Compression::Plain, 2));
    assert_eq!(
        extract_tarball("t.tar.gz", &gzip(&data), "precious", false),
        entry(Compression::Gzip, 2)
    );
    assert_eq!(
        extract_tarball("t.tar.bz", &bzip2(&data), "precious", true),
        entry(Compression::Bzip2, 2)
    );
    assert_eq!(
        extract_tarball("t.tar.xz", &xz(&data), "precious", false),
        entry(Compression::Xz, 2)
    );
}

#[test]
fn missing_executable_is_reported() {
    let data = tarball(&[b"dir/README.md", b"precious/LICENSE"]);
    let fault = extract_tarball("t", &data, "precious", false).unwrap_err();
    assert_eq!(fault, UbiError::NotInTarball("precious".to_string()));
    assert_eq!(fault.message(), "could not find any files named precious in the downloaded tarball");
    let fault = extract_zip(&zip_file(&["a", "b"]), "precious", false).unwrap_err();
    assert_eq!(fault, UbiError::NotInZip("precious".to_string()));
    assert_eq!(fault.message(), "could not find any files named precious in the downloaded zip file");
}

#[test]
fn directory_counts_by_its_name() {
    let data = tarball(&[b"precious/", b"precious/precious"]);
    assert_eq!(extract_tarball("t", &data, "precious", false), entry(Compression::Plain, 0));
}

#[test]
fn entries_behind_the_executable_do_not_matter() {
    let whole = tarball(&[b"LICENSE", b"precious", b"README.md"]);
    let cut = &whole[..4 * 512 + 100];
    assert_eq!(extract_tarball("t", cut, "precious", false), entry(Compression::Plain, 1));
    let fault = extract_tarball("t", cut, "README.md", false).unwrap_err();
    assert!(matches!(fault, UbiError::Unreadable(_)));
}

#[test]
fn damaged_compression_matters_only_in_front_of_the_executable() {
    let data = archive(&[file(b"precious", b"abc"), file(b"noise", &noise(65536)), file(b"late", b"")]);
    let whole = gzip(&data);
    let cut = &whole[..whole.len() / 2];
    assert_eq!(extract_tarball("t.tgz", &whole, "late", false), entry(Compression::Gzip, 2));
    assert_eq!(extract_tarball("t.tgz", cut, "precious", false), entry(Compression::Gzip, 0));
    let mut sink = Vec::new();
    let e = flate2::read::GzDecoder::new(cut).read_to_end(&mut sink).unwrap_err();
    assert_eq!(
        extract_tarball("t.tgz", cut, "late", false),
        Err(UbiError::Unreadable(e.to_string()))
    );

    // The archive ends before the trailer of the compressed file, which is damaged here.
    let mut damaged = gzip(&tarball(&[b"LICENSE"]));
    let last = damaged.len() - 8;
    damaged[last] ^= 1;
    assert!(ungzip(&damaged).is_err());
    assert_eq!(
        extract_tarball("t.tgz", &damaged, "late", false),
        Err(UbiError::NotInTarball("late".to_string()))
    );
}

#[test]
fn sparse_entry_that_cannot_be_added_up_is_reported() {
    let mut data = bogus_header(0);
    data.extend_from_slice(&[0; 512]);
    let mismatch = || Err(UbiError::Unreadable("archive header checksum mismatch".to_string()));
    assert_eq!(extract_tarball("t", &data, "sparse", false), mismatch());
    assert_eq!(extract_tarball("t.tgz", &gzip(&data), "sparse", false), mismatch());

    // The executable in front of it is found all the same.
    let mut behind = tarball(&[b"dir/precious"]);
    behind.truncate(1024);
    behind.extend_from_slice(&bogus_header(1024));
    behind.extend_from_slice(&[0; 512]);
    assert_eq!(extract_tarball("t", &behind, "precious", false), entry(Compression::Plain, 0));
    assert_eq!(
        extract_tarball("t.tbz", &bzip2(&behind), "precious", false),
        entry(Compression::Bzip2, 0)
    );
    assert_eq!(extract_tarball("t", &behind, "sparse", false), mismatch());
}

#[test]
fn header_in_front_of_damage_is_read() {
    // The compressor takes the bytes in pieces of about 600 kB, and the first piece ends
    // soon behind the header of the empty executable.
    let start = 1170 * 512;
    let data = archive(&[
        file(b"noise", &noise(start - 512)),
        file(b"precious", b""),
        file(b"more", &noise(300000)),
        file(b"late", b""),
    ]);
    let mut damaged = bzip2(&data);
    damaged.truncate(damaged.len() - 1000);
    assert_eq!(extract_tarball("t.tbz", &damaged, "precious", false), entry(Compression::Bzip2, 1));
    let mut sink = Vec::new();
    let e = bzip2::read::BzDecoder::new(&damaged[..]).read_to_end(&mut sink).unwrap_err();
    assert_eq!(
        extract_tarball("t.tbz", &damaged, "late", false),
        Err(UbiError::Unreadable(e.to_string()))
    );
}

#[test]
fn size_in_records_on_the_entry_counts() {
    let bogus = || Err(UbiError::Unreadable("archive header checksum mismatch".to_string()));
    let long = plain_entry(b"long", tar::EntryType::GNULongName, b"dir/sparse\0");
    let huge = records(b"29 size=18446744073709548544\n");
    let second = records(b"18 comment=abcdef\n29 size=18446744073709548544\n");
    for entries in [
        vec![huge.clone(), sparse_entry(b"sparse")],
        vec![second, sparse_entry(b"sparse")],
        vec![huge.clone(), long.clone(), sparse_entry(b"sparse")],
        vec![long, huge, sparse_entry(b"sparse")],
    ] {
        assert_eq!(extract_tarball("t", &archive(&entries), "sparse", false), bogus());
    }
}

#[test]
fn sizes_elsewhere_do_not_count() {
    let text = b"size=18446744073709551615\n29 size=18446744073709548544\n";
    let found = |entries: &[Vec<u8>], index: usize| {
        let data = archive(entries);
        assert_eq!(prepare(data.clone(), true), data);
        assert_eq!(
            extract_tarball("t", &data, "precious", false),
            entry(Compression::Plain, index)
        );
        assert_eq!(
            extract_tarball("t", &data, "late", false),
            Err(UbiError::NotInTarball("late".to_string()))
        );
    };
    let precious = || file(b"precious", b"abc");
    found(&[sparse_entry(b"sparse"), precious(), file(b"notes", text)], 1);
    found(&[file(b"notes", text), sparse_entry(b"sparse"), precious()], 2);
    found(&[sparse_entry(b"sparse"), file(b"precious", text)], 1);

    // Records on another entry, whose contents hold such a size, or on no size at all.
    let path = || records(b"14 path=notes\n");
    found(&[path(), file(b"x", text), sparse_entry(b"sparse"), precious()], 2);
    let comment = records(b"40 comment=my size=18446744073709548544\n");
    found(&[comment, sparse_entry(b"sparse"), precious()], 1);
    let small = records(b"9 size=0\n");
    found(&[small, sparse_entry(b"sparse"), precious()], 1);

    // An entry behind the sound one that cannot be read gives its own error.
    let mut data = archive(&[sparse_entry(b"sparse"), file(b"notes", text)]);
    data.truncate(2048);
    data.extend_from_slice(&[1; 512]);
    let fault = extract_tarball("t", &data, "precious", false).unwrap_err();
    assert!(fault.message().starts_with("numeric field was not a number"));
}

#[test]
fn sizes_that_can_be_counted_are_kept() {
    // The size of the entry, rounded up to blocks, ends where no header fits any more.
    for (size, kept) in [
        ([0x80, 0, 0, 0, 0x7f, 0xff, 0xff, 0xff, 0xff, 0xff, 0xff, 0xff], true),
        ([0x80, 0, 0, 0, 0xff, 0xff, 0xff, 0xff, 0xff, 0xff, 0xf8, 0], true),
        ([0x80, 0, 0, 0, 0xff, 0xff, 0xff, 0xff, 0xff, 0xff, 0xfa, 0], true),
        ([0x80, 0, 0, 0, 0xff, 0xff, 0xff, 0xff, 0xff, 0xff, 0xfc, 0], false),
        ([0x80, 0, 0, 0, 0xff, 0xff, 0xff, 0xff, 0xff, 0xff, 0xfe, 0], true),
    ] {
        let mut data = sparse_header(b"sparse", &size);
        data.extend_from_slice(&[0; 512]);
        assert_eq!(prepare(data.clone(), true) == data, kept, "{:?}", size);
        assert!(extract_tarball("t", &data, "sparse", false).is_err());
    }
}

#[test]
fn contents_that_look_like_a_sparse_header_do_not_matter() {
    let mut builder = tar::Builder::new(Vec::new());
    for (path, contents) in [("data", &bogus_header(512)[..]), ("precious", &b"abc"[..])] {
        let mut header = tar::Header::new_gnu();
        header.set_size(contents.len() as u64);
        header.set_mode(0o644);
        builder.append_data(&mut header, path, contents).unwrap();
    }
    let data = builder.into_inner().unwrap();
    assert_eq!(extract_tarball("t", &data, "precious", false), entry(Compression::Plain, 1));
}

#[test]
fn listable_tarballs_are_listed_as_they_are() {
    let data = tarball(&[b"LICENSE", b"precious"]);
    assert_eq!(prepare(data.clone(), true), data);
    let sparse = sparse_header(b"sparse", b"00000000000\0");
    assert_eq!(prepare(sparse.clone(), true), sparse);

    let mut bogus = bogus_header(0);
    assert_eq!(prepare(bogus.clone(), true), bogus);
    bogus.extend_from_slice(&[0; 512]);
    let mut spoiled = bogus.clone();
    spoiled[482] = 0;
    assert_eq!(prepare(bogus, true), spoiled);

    let mut cut = data.clone();
    cut.truncate(1024);
    cut.push(255);
    assert_eq!(prepare(data[..1300].to_vec(), false), cut);
    assert_eq!(prepare(Vec::new(), false), vec![255]);
}

#[test]
fn failure_to_decode_ends_the_listing() {
    let path = || Ok(b"a".to_vec());
    let failure = || Some("corrupt".to_string());
    let corrupt = || Err("corrupt".to_string());
    let eof = || Err("eof".to_string());
    assert_eq!(settle(Ok((vec![path(), eof()], 0)), failure()), Ok(vec![path(), corrupt()]));
    assert_eq!(settle(Ok((vec![path()], 0)), failure()), Ok(vec![path(), corrupt()]));
    assert_eq!(settle(Ok((vec![path(), eof()], 1)), failure()), Ok(vec![path(), eof()]));
    assert_eq!(settle(Ok((vec![path(), eof()], 0)), None), Ok(vec![path(), eof()]));
    assert_eq!(settle(Err("closed".to_string()), failure()), Err("closed".to_string()));
    assert_eq!(whole_or_fault((vec![1], None)), Ok(vec![1]));
    assert_eq!(
        whole_or_fault((vec![1], failure())),
        Err(UbiError::Unreadable("corrupt".to_string()))
    );
}

#[test]
fn unreadable_tarballs_are_reported() {
    let garbage = vec![1u8; 1024];
    let message = tar::Archive::new(&garbage[..])
        .entries()
        .unwrap()
        .next()
        .unwrap()
        .err()
        .unwrap()
        .to_string();
    let fault = extract_tarball("t", &garbage, "precious", false).unwrap_err();
    assert_eq!(fault, UbiError::Unreadable(message.clone()));
    assert_eq!(fault.message(), message);
    let mut sink = Vec::new();
    let gz = flate2::read::GzDecoder::new(&garbage[..]).read_to_end(&mut sink).unwrap_err();
    let bz = bzip2::read::BzDecoder::new(&garbage[..]).read_to_end(&mut sink).unwrap_err();
    let xz = xz::read::XzDecoder::new(&garbage[..]).read_to_end(&mut sink).unwrap_err();
    for (name, e) in [("t.gz", gz), ("t.bz", bz), ("t.xz", xz)] {
        assert_eq!(
            extract_tarball(name, &garbage, "precious", false),
            Err(UbiError::Unreadable(e.to_string())),
            "{}",
            name
        );
    }
    assert_eq!(
        extract_tarball("t.rar", &garbage, "precious", false),
        Err(UbiError::TarballExtension("rar".to_string()))
    );
}

#[test]
fn tarball_paths_that_are_not_unicode() {
    let data = tarball(&[b"pr\xffcious", b"d\xffr/precious"]);
    assert_eq!(extract_tarball("t", &data, "precious", false), entry(Compression::Plain, 1));
    assert_eq!(
        extract_tarball("t", &data, "precious", true),
        Err(UbiError::NonUnicodePath("pr\u{fffd}cious".to_string()))
    );
}

#[test]
fn listing_is_searched_in_order() {
    let listed = || {
        Ok(vec![
            Ok(b"a/b".to_vec()),
            Ok(b"a/precious".to_vec()),
            Err("checksum".to_string()),
            Ok(b"late".to_vec()),
        ])
    };
    assert_eq!(find_in_listing(listed(), "precious", false), Ok(1));
    assert_eq!(
        find_in_listing(listed(), "late", false),
        Err(UbiError::Unreadable("checksum".to_string()))
    );
    assert_eq!(
        find_in_listing(Err("broken".to_string()), "late", false),
        Err(UbiError::Unreadable("broken".to_string()))
    );
    assert_eq!(
        find_in_listing(Ok(Vec::new()), "late", false),
        Err(UbiError::NotInTarball("late".to_string()))
    );
}

#[test]
fn executable_is_found_in_zip_files() {
    let data = zip_file(&["dir/README.md", "dir/precious.exe", "precious.exe"]);
    assert_eq!(extract_zip(&data, "precious.exe", false), Ok(1));
    assert_eq!(extract_zip(&data, "precious.exe", true), Ok(1));
}

#[test]
fn unreadable_zip_files_are_reported() {
    let garbage = b"this is no zip file";
    let message = zip::ZipArchive::new(Cursor::new(&garbage[..])).err().unwrap().to_string();
    assert_eq!(extract_zip(garbage, "precious", false), Err(UbiError::Unreadable(message)));
}

#[test]
fn zip_member_that_cannot_be_opened_ends_the_search() {
    let mut data = zip_file(&["first", "second", "third"]);
    let mut headers: Vec<usize> = Vec::new();
    for at in 0..data.len() - 4 {
        if &data[at..at + 4] == b"PK\x03\x04" {
            headers.push(at);
        }
    }
    // The directory now points to something that is no member.
    data[headers[1]] = b'Q';
    let mut archive = zip::ZipArchive::new(Cursor::new(&data[..])).unwrap();
    let message = archive.by_index(1).err().unwrap().to_string();
    assert_eq!(extract_zip(&data, "first", false), Ok(0));
    for exe in ["second", "third", "fourth"] {
        let fault = extract_zip(&data, exe, false).unwrap_err();
        assert_eq!(fault, UbiError::ZipMember(message.clone()));
        assert_eq!(fault.message(), message);
    }
}

#[test]
fn zip_member_is_named_however_it_is_stored() {
    let mut data = zip_file(&["first", "second"]);
    for at in 0..data.len() - 4 {
        if &data[at..at + 4] == b"PK\x01\x02" {
            // A compression method that nobody knows.
            data[at + 10] = 77;
        }
    }
    assert_eq!(extract_zip(&data, "second", false), Ok(1));
}

#[test]
fn members_are_searched_in_order() {
    let members = vec![
        Ok("a/".to_string()),
        Ok("x/precious".to_string()),
        Ok("precious".to_string()),
        Err("encrypted".to_string()),
    ];
    assert_eq!(find_in_members(&members, "precious", false), Ok(1));
    assert_eq!(find_in_members(&members, "a", false), Ok(0));
    assert_eq!(
        find_in_members(&members, "b", false),
        Err(UbiError::ZipMember("encrypted".to_string()))
    );
}

#[test]
fn first_member_of_that_name_is_located() {
    let members = || {
        vec![
            Ok(None),
            Ok(Some("a".to_string())),
            Ok(Some("b".to_string())),
            Ok(Some("a".to_string())),
        ]
    };
    assert_eq!(locate(members(), "a", UbiError::UnknownOs), Ok(1));
    assert_eq!(locate(members(), "b", UbiError::UnknownOs), Ok(2));
    assert_eq!(locate(members(), "c", UbiError::UnknownOs), Err(UbiError::UnknownOs));
}

#[test]
fn member_that_cannot_be_told_ends_the_search() {
    let members = || {
        vec![
            Ok(Some("a".to_string())),
            Err(UbiError::Unreadable("first".to_string())),
            Ok(Some("b".to_string())),
            Err(UbiError::Unreadable("second".to_string())),
        ]
    };
    assert_eq!(locate(members(), "a", UbiError::UnknownOs), Ok(0));
    for exe in ["b", "c"] {
        assert_eq!(
            locate(members(), exe, UbiError::UnknownOs),
            Err(UbiError::Unreadable("first".to_string()))
        );
    }
}

#[test]
fn gzipped_executables_are_uncompressed() {
    let data = gzip(b"#!/bin/sh\n");
    assert_eq!(ungzip(&data), Ok(b"#!/bin/sh\n".to_vec()));
    let mut decoded = Vec::new();
    let message = flate2::read::GzDecoder::new(&data[..data.len() - 1])
        .read_to_end(&mut decoded)
        .unwrap_err()
        .to_string();
    assert_eq!(ungzip(&data[..data.len() - 1]), Err(UbiError::Unreadable(message)));
}
