use mac_address::acquire::{Acquisition, OsReply, Step};
use mac_address::MacAddressError;

#[test]
fn probe_leads_to_one_allocation_of_reported_size() {
    let s = Acquisition::start();
    assert_eq!(s, Acquisition::Probing);
    let (s, step) = s.on_reply(OsReply::BufferTooSmall { required: 15_000 });
    assert_eq!(step, Step::AllocateAndFill(15_000));
    assert_eq!(s, Acquisition::Filling { size: 15_000 });
    let (s, step) = s.on_reply(OsReply::Success);
    assert_eq!(step, Step::Accept);
    assert_eq!(s, Acquisition::Filled);
    let (s, step) = s.on_reply(OsReply::BufferTooSmall { required: 20_000 });
    assert_eq!(step, Step::Idle);
    assert_eq!(s, Acquisition::Filled);
}

#[test]
fn fill_is_never_retried_with_another_size() {
    let (s, _) = Acquisition::start().on_reply(OsReply::BufferTooSmall { required: 64 });
    let (s, step) = s.on_reply(OsReply::BufferTooSmall { required: 128 });
    assert_eq!(step, Step::Reject(MacAddressError::InternalError));
    let (s, step) = s.on_reply(OsReply::BufferTooSmall { required: 128 });
    assert_eq!(step, Step::Idle);
    assert_eq!(s, Acquisition::Failed);
}

#[test]
fn failed_fill_after_probe_is_internal_error() {
    let (s, _) = Acquisition::start().on_reply(OsReply::BufferTooSmall { required: 512 });
    let (s, step) = s.on_reply(OsReply::Failure);
    assert_eq!(step, Step::Reject(MacAddressError::InternalError));
    assert_eq!(s, Acquisition::Failed);
    let (_, step) = s.on_reply(OsReply::Success);
    assert_eq!(step, Step::Idle);
}

#[test]
fn probe_that_does_not_report_a_size_fails() {
    let (s, step) = Acquisition::start().on_reply(OsReply::Success);
    assert_eq!(step, Step::Reject(MacAddressError::InternalError));
    assert_eq!(s, Acquisition::Failed);
    let (_, step) = Acquisition::start().on_reply(OsReply::Failure);
    assert_eq!(step, Step::Reject(MacAddressError::InternalError));
}

#[test]
fn zero_size_probe_allocates_empty_buffer() {
    let (s, step) = Acquisition::start().on_reply(OsReply::BufferTooSmall { required: 0 });
    assert_eq!(step, Step::AllocateAndFill(0));
    assert_eq!(s, Acquisition::Filling { size: 0 });
}
