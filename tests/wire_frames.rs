use transfer_jobs::controller::Command;
use transfer_jobs::error::Error;
use transfer_jobs::identity::JobIdentity;
use transfer_jobs::report::StatusReport;
use transfer_jobs::state::JobState;
use transfer_jobs::wire::{
    read_reply, read_request, read_response, write_reply, write_request, write_response, Request,
};

const ID: u128 = 0x0102_0304_0506_0708_090a_0b0c_0d0e_0f10;

fn id_bytes() -> Vec<u8> {
    (1u8..=16).collect()
}

#[test]
fn request_frame_layout() {
    let r = Request {
        job: JobIdentity::new(ID),
        command: Command::SetUpdateInterval { interval_ms: 500 },
    };
    let mut want = vec![5u8];
    want.extend(id_bytes());
    want.extend([0, 0, 1, 244]);
    assert_eq!(write_request(&r), want);
    assert_eq!(read_request(&want), Some(r));

    let p = Request { job: JobIdentity::new(ID), command: Command::SetPriority { foreground: true } };
    let mut want = vec![1u8];
    want.extend(id_bytes());
    want.push(1);
    assert_eq!(write_request(&p), want);
}

#[test]
fn every_request_reads_back() {
    for command in [
        Command::SetPriority { foreground: false },
        Command::SetPriority { foreground: true },
        Command::Resume,
        Command::Complete,
        Command::Cancel,
        Command::SetUpdateInterval { interval_ms: u32::MAX },
    ] {
        let r = Request { job: JobIdentity::new(u128::MAX - 3), command };
        assert_eq!(read_request(&write_request(&r)), Some(r));
    }
}

#[test]
fn malformed_requests_are_refused() {
    let mut frame = vec![3u8];
    frame.extend(id_bytes());
    assert!(read_request(&frame).is_some());
    frame.push(0);
    assert_eq!(read_request(&frame), None);
    let mut bad_tag = vec![9u8];
    bad_tag.extend(id_bytes());
    assert_eq!(read_request(&bad_tag), None);
    let mut bad_flag = vec![1u8];
    bad_flag.extend(id_bytes());
    bad_flag.push(2);
    assert_eq!(read_request(&bad_flag), None);
    assert_eq!(read_request(&[4u8, 0, 0]), None);
}

#[test]
fn response_frames() {
    assert_eq!(write_response(&Ok(())), vec![0u8]);
    assert_eq!(write_response(&Err(Error::NotFound)), vec![1u8]);
    assert_eq!(write_response(&Err(Error::EngineError { code: -2 })), vec![5u8, 255, 255, 255, 254]);
    for o in [
        Ok(()),
        Err(Error::NotFound),
        Err(Error::InvalidStateForOperation),
        Err(Error::Timeout),
        Err(Error::NotConnected),
        Err(Error::EngineError { code: i32::MIN }),
        Err(Error::EngineError { code: 404 }),
    ] {
        assert_eq!(read_response(&write_response(&o)), Some(o));
    }
    assert_eq!(read_response(&[]), None);
    assert_eq!(read_response(&[6u8]), None);
    assert_eq!(read_response(&[5u8, 0]), None);
    assert_eq!(read_response(&[1u8, 0]), None);
}

#[test]
fn reply_frames_carry_reports_and_failures() {
    let job = JobIdentity::new(ID);
    let reports = [
        StatusReport::new(job, JobState::Transferring, 12, Some(40), 0),
        StatusReport::new(job, JobState::Queued, 0, None, 0),
        StatusReport::new(job, JobState::Error, 0, None, -5),
        StatusReport::new(job, JobState::TransientError, 3, Some(u64::MAX), 7),
    ];
    for r in reports {
        let o: Result<StatusReport, Error> = Ok(r);
        assert_eq!(read_reply(&write_reply(&o)), Some(o));
    }
    let lost: Result<StatusReport, Error> = Err(Error::NotConnected);
    assert_eq!(write_reply(&lost), vec![4u8]);
    assert_eq!(read_reply(&[4u8]), Some(lost));
    let cancelled: Result<StatusReport, Error> =
        Ok(StatusReport::new(job, JobState::Cancelled, 0, None, 0));
    assert_ne!(write_reply(&cancelled), write_reply(&lost));
}

#[test]
fn report_frame_layout() {
    let r = StatusReport::new(JobIdentity::new(ID), JobState::Error, 2, None, 404);
    let mut want = vec![0u8, 4];
    want.extend(id_bytes());
    want.extend([0, 0, 0, 0, 0, 0, 0, 2]);
    want.push(0);
    want.extend([0, 0, 1, 148]);
    assert_eq!(write_reply(&Ok(r)), want);
    want.pop();
    assert_eq!(read_reply(&want), None);
    assert_eq!(read_reply(&[0u8]), None);
    assert_eq!(read_reply(&[0u8, 9]), None);
}
