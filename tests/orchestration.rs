use oss_sdk::bucket::{Bucket, ListBuckets, ListingDecoder};
use oss_sdk::chunk::FileChunk;
use oss_sdk::errors::{Error, InvalidReason, Phase};
use oss_sdk::upload::{Action, Event, MultipartUpload, Stage};

fn rejected(n: u64) -> Error {
    Error::ProviderRejected { phase: Phase::Part(n), status: 500, body: "boom".to_string() }
}

#[test]
fn upload_succeeds_in_plan_order() {
    let mut u = MultipartUpload::start(250000, 100000).unwrap();
    assert_eq!(u.stage(), Stage::Initiating);
    let a = u.step(Event::Initiated("uid".to_string()));
    match a {
        Action::UploadPart { chunk, upload_id } => {
            assert_eq!(chunk, FileChunk { number: 1, offset: 0, size: 100000 });
            assert_eq!(upload_id, "uid");
        }
        other => panic!("unexpected {:?}", other),
    }
    let a = u.step(Event::PartUploaded("e1".to_string()));
    assert!(matches!(a, Action::UploadPart { chunk: FileChunk { number: 2, offset: 100000, size: 100000 }, .. }));
    let a = u.step(Event::PartUploaded("e2".to_string()));
    assert!(matches!(a, Action::UploadPart { chunk: FileChunk { number: 3, offset: 200000, size: 50000 }, .. }));
    let a = u.step(Event::PartUploaded("e3".to_string()));
    match a {
        Action::Complete { upload_id, body } => {
            assert_eq!(upload_id, "uid");
            assert_eq!(body, "<CompleteMultipartUpload><Part><PartNumber>1</PartNumber><ETag>e1</ETag></Part><Part><PartNumber>2</PartNumber><ETag>e2</ETag></Part><Part><PartNumber>3</PartNumber><ETag>e3</ETag></Part></CompleteMultipartUpload>");
        }
        other => panic!("unexpected {:?}", other),
    }
    assert!(u.accepts(&Event::Completed));
    assert!(!u.accepts(&Event::AbortSettled));
    let a = u.step(Event::Completed);
    assert!(matches!(a, Action::Finish(Ok(()))));
    assert_eq!(u.stage(), Stage::Done);
}

#[test]
fn part_failure_aborts_and_reports_part_error() {
    let mut u = MultipartUpload::start(250000, 100000).unwrap();
    u.step(Event::Initiated("uid".to_string()));
    u.step(Event::PartUploaded("e1".to_string()));
    let a = u.step(Event::PartFailed(rejected(2)));
    match a {
        Action::Abort { upload_id } => assert_eq!(upload_id, "uid"),
        other => panic!("unexpected {:?}", other),
    }
    assert!(!u.accepts(&Event::PartUploaded("e3".to_string())));
    let a = u.step(Event::AbortSettled);
    match a {
        Action::Finish(Err(e)) => assert_eq!(e, rejected(2)),
        other => panic!("unexpected {:?}", other),
    }
}

#[test]
fn initiate_failure_is_reported_without_abort() {
    let mut u = MultipartUpload::start(10, 3).unwrap();
    let err = Error::TransportFailure { phase: Phase::Initiate, message: "down".to_string() };
    let a = u.step(Event::InitiateFailed(err.clone()));
    match a {
        Action::Finish(Err(e)) => assert_eq!(e, err),
        other => panic!("unexpected {:?}", other),
    }
}

#[test]
fn completion_failure_is_reported() {
    let mut u = MultipartUpload::start(3, 3).unwrap();
    u.step(Event::Initiated("id".to_string()));
    let a = u.step(Event::PartUploaded("t".to_string()));
    assert!(matches!(a, Action::Complete { .. }));
    let err = Error::ProviderRejected { phase: Phase::Complete, status: 400, body: "bad".to_string() };
    let a = u.step(Event::CompleteFailed(err.clone()));
    match a {
        Action::Finish(Err(e)) => assert_eq!(e, err),
        other => panic!("unexpected {:?}", other),
    }
}

#[test]
fn upload_refused_before_any_request() {
    assert!(matches!(MultipartUpload::start(0, 100), Err(Error::InvalidInput(InvalidReason::EmptyFile))));
    assert!(matches!(MultipartUpload::start(100, 0), Err(Error::InvalidInput(InvalidReason::ZeroChunkSize))));
    assert!(matches!(MultipartUpload::start(10000, 1), Err(Error::TooManyParts)));
}

#[test]
fn bucket_records() {
    let b = Bucket::new(
        "n".to_string(),
        "d".to_string(),
        "l".to_string(),
        "ex".to_string(),
        "in".to_string(),
        "sc".to_string(),
    );
    assert_eq!(b.name(), "n");
    assert_eq!(b.create_data(), "d");
    assert_eq!(b.location(), "l");
    assert_eq!(b.extranet_endpoint(), "ex");
    assert_eq!(b.intranet_endpoint(), "in");
    assert_eq!(b.storage_class(), "sc");
    let l = ListBuckets::new(
        "p".to_string(),
        "m".to_string(),
        "100".to_string(),
        true,
        "nm".to_string(),
        "id".to_string(),
        "dn".to_string(),
        vec![b],
    );
    assert_eq!(l.prefix(), "p");
    assert_eq!(l.marker(), "m");
    assert_eq!(l.max_keys(), "100");
    assert!(l.is_truncated());
    assert_eq!(l.next_marker(), "nm");
    assert_eq!(l.id(), "id");
    assert_eq!(l.display_name(), "dn");
    assert_eq!(l.buckets().len(), 1);
    assert_eq!(l.buckets()[0].name(), "n");
}

fn element(d: &mut ListingDecoder, tag: &str, text: &str) {
    d.on_start(tag);
    if ListingDecoder::wants_text(tag) {
        d.on_text(tag, text.to_string());
    }
    d.on_end(tag);
}

#[test]
fn listing_decoder_gathers_buckets() {
    let mut d = ListingDecoder::new();
    element(&mut d, "Prefix", "pre");
    element(&mut d, "IsTruncated", "true");
    element(&mut d, "ID", "owner");
    element(&mut d, "DisplayName", "Owner");
    d.on_start("Bucket");
    element(&mut d, "Name", "b1");
    element(&mut d, "Location", "oss-cn-hangzhou");
    element(&mut d, "Unknown", "zzz");
    d.on_end("Bucket");
    d.on_start("Bucket");
    element(&mut d, "Name", "b2");
    element(&mut d, "StorageClass", "Standard");
    d.on_end("Bucket");
    let l = d.finish();
    assert_eq!(l.prefix(), "pre");
    assert!(l.is_truncated());
    assert_eq!(l.id(), "owner");
    assert_eq!(l.display_name(), "Owner");
    assert_eq!(l.marker(), "");
    assert_eq!(l.buckets().len(), 2);
    assert_eq!(l.buckets()[0].name(), "b1");
    assert_eq!(l.buckets()[0].location(), "oss-cn-hangzhou");
    assert_eq!(l.buckets()[1].name(), "b2");
    assert_eq!(l.buckets()[1].location(), "");
    assert_eq!(l.buckets()[1].storage_class(), "Standard");
    assert!(!ListingDecoder::wants_text("Bucket"));
}
