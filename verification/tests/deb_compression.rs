use nativepkg::deb::read::decompress;
use nativepkg::deb::Compression;

#[test]
fn member_names_match_what_dpkg_deb_writes() {
    assert_eq!(Compression::Gzip.member_name("data"), "data.tar.gz");
    assert_eq!(Compression::Xz.member_name("control"), "control.tar.xz");
    assert_eq!(Compression::Zstd.member_name("data"), "data.tar.zst");
    assert_eq!(Compression::Stored.member_name("data"), "data.tar");
}

#[test]
fn every_compressor_round_trips_through_its_own_decoder() {
    let payload: Vec<u8> = (0..10_000u32).map(|n| (n % 251) as u8).collect();
    for compression in [
        Compression::Gzip,
        Compression::Xz,
        Compression::Zstd,
        Compression::Stored,
    ] {
        let compressed = compression
            .compress(&payload)
            .unwrap_or_else(|e| panic!("{compression:?} should compress: {e:?}"));
        let back = decompress(compression, &compressed)
            .unwrap_or_else(|e| panic!("{compression:?} should decompress: {e:?}"));
        assert_eq!(back, payload, "{compression:?} did not round-trip");
    }
}

#[test]
fn compression_is_deterministic() {
    let payload = b"the same input twice".repeat(100);
    for compression in [Compression::Gzip, Compression::Xz, Compression::Zstd] {
        let a = compression.compress(&payload).expect("compress");
        let b = compression.compress(&payload).expect("compress");
        assert_eq!(a, b, "{compression:?} is not deterministic");
    }
}

#[test]
fn compression_actually_compresses_repetitive_input() {
    let payload = b"aaaaaaaaaaaaaaaa".repeat(1000);
    for compression in [Compression::Gzip, Compression::Xz, Compression::Zstd] {
        let out = compression.compress(&payload).expect("compress");
        assert!(
            out.len() < payload.len() / 10,
            "{compression:?} produced {} bytes from {}",
            out.len(),
            payload.len()
        );
    }
}

#[test]
fn names_are_parsed_as_dpkg_spells_them() {
    assert_eq!(Compression::parse("gzip").unwrap(), Compression::Gzip);
    assert_eq!(Compression::parse("zstd").unwrap(), Compression::Zstd);
    assert_eq!(Compression::parse("xz").unwrap(), Compression::Xz);
    assert_eq!(Compression::parse("none").unwrap(), Compression::Stored);
}

#[test]
fn an_unknown_compressor_is_rejected_listing_the_accepted_names() {
    let err = Compression::parse("bzip2")
        .expect_err("unknown")
        .text();
    assert!(err.contains("bzip2"), "{err:?}");
    assert!(err.contains("zstd"), "{err:?}");
}
