use thermal_camera::acquisition::{Acquisition, Request, Stage};
use thermal_camera::error::{AcquisitionError, BusError, BusFailure};

/// A sensor that answers from memory: the status register announces new data on every
/// `ready_after`-th read, and pixel `p` holds `3 * p + 1`.
struct Sensor {
    subpage: u16,
    ready_after: u32,
    status_reads: u32,
    reads: Vec<u16>,
    writes: Vec<(u16, u16)>,
    fail_at_read: Option<usize>,
    fail_write: bool,
}

fn sensor(subpage: u16, ready_after: u32) -> Sensor {
    Sensor {
        subpage,
        ready_after,
        status_reads: 0,
        reads: Vec::new(),
        writes: Vec::new(),
        fail_at_read: None,
        fail_write: false,
    }
}

fn failure(detail: &str) -> BusError {
    BusError { failure: BusFailure::Read, detail: detail.to_string() }
}

fn pixel_value(pixel: u16) -> u16 {
    3 * pixel + 1
}

impl Sensor {
    fn read(&mut self, address: u16) -> Result<u16, BusError> {
        if self.fail_at_read == Some(self.reads.len()) {
            self.reads.push(address);
            return Err(failure("read refused"));
        }
        self.reads.push(address);
        if address == 0x8000 {
            self.status_reads += 1;
            let first = self.reads.len() == 1;
            let ready = !first && self.ready_after > 0 && self.status_reads % self.ready_after == 0;
            Ok(0x0010 | self.subpage | if ready { 0x8 } else { 0 })
        } else {
            Ok(pixel_value(address - 0x0400))
        }
    }

    fn write(&mut self, address: u16, value: u16) -> Result<(), BusError> {
        self.writes.push((address, value));
        if self.fail_write {
            Err(BusError { failure: BusFailure::Write, detail: "write refused".to_string() })
        } else {
            Ok(())
        }
    }
}

fn run(sensor: &mut Sensor, poll_limit: Option<u32>) -> Acquisition {
    let mut acquisition = Acquisition::new(poll_limit);
    for _ in 0..100_000 {
        acquisition = match acquisition.request() {
            Request::Read { address } => {
                let reply = sensor.read(address);
                acquisition.on_read(reply)
            }
            Request::Write { address, value } => {
                let reply = sensor.write(address, value);
                acquisition.on_write(reply)
            }
            Request::Nothing => return acquisition,
        };
    }
    panic!("the acquisition did not end");
}

#[test]
fn a_new_acquisition_asks_for_the_status() {
    let acquisition = Acquisition::new(None);
    assert_eq!(acquisition.stage(), Stage::Subpage);
    assert_eq!(acquisition.request(), Request::Read { address: 0x8000 });
    assert_eq!(acquisition.frame(), None);
    assert_eq!(*acquisition.error(), None);
}

#[test]
fn a_frame_holds_every_pixel() {
    for subpage in [0u16, 1] {
        let mut sensor = sensor(subpage, 3);
        let acquisition = run(&mut sensor, None);
        assert_eq!(acquisition.stage(), Stage::Done);
        assert_eq!(*acquisition.error(), None);
        let frame = acquisition.frame().unwrap();
        for pixel in 0..768u16 {
            assert_eq!(frame[pixel as usize], pixel_value(pixel), "pixel {}", pixel);
        }
    }
}

#[test]
fn every_pixel_is_read_once() {
    let mut sensor = sensor(1, 1);
    run(&mut sensor, None);
    let mut times = [0u32; 768];
    for address in &sensor.reads {
        if *address != 0x8000 {
            times[(*address - 0x0400) as usize] += 1;
        }
    }
    assert!(times.iter().all(|count| *count == 1));
}

#[test]
fn the_first_pass_reads_the_checkerboard_of_the_subpage() {
    let mut sensor = sensor(0, 1);
    run(&mut sensor, None);
    // status, status, then the first pass
    assert_eq!(&sensor.reads[..2], &[0x8000, 0x8000]);
    assert_eq!(&sensor.reads[2..6], &[0x0400, 0x0402, 0x0404, 0x0406]);
    // the second row starts with its second pixel
    assert_eq!(&sensor.reads[18..20], &[0x0400 + 33, 0x0400 + 35]);
    // the second pass follows one more look at the status
    assert_eq!(sensor.reads[386], 0x8000);
    assert_eq!(&sensor.reads[387..389], &[0x0401, 0x0403]);
    assert_eq!(sensor.reads.len(), 1 + 2 * 385);

    let mut sensor = sensor_with_subpage_one();
    run(&mut sensor, None);
    assert_eq!(&sensor.reads[2..4], &[0x0401, 0x0403]);
    assert_eq!(&sensor.reads[18..20], &[0x0400 + 32, 0x0400 + 34]);
}

fn sensor_with_subpage_one() -> Sensor {
    sensor(1, 1)
}

#[test]
fn the_new_data_flag_is_cleared_before_each_pass() {
    let mut sensor = sensor(1, 2);
    run(&mut sensor, None);
    // the status read back was 0x0019: only bit 3 is taken out
    assert_eq!(sensor.writes, vec![(0x8000, 0x0011), (0x8000, 0x0011)]);
}

#[test]
fn a_failed_first_read_gives_up() {
    let mut sensor = sensor(0, 1);
    sensor.fail_at_read = Some(0);
    let acquisition = run(&mut sensor, None);
    assert_eq!(acquisition.stage(), Stage::Failed);
    assert_eq!(acquisition.frame(), None);
    assert_eq!(*acquisition.error(), Some(AcquisitionError::Bus(failure("read refused"))));
    assert_eq!(sensor.reads.len(), 1);
}

#[test]
fn a_failed_read_in_the_second_pass_gives_no_frame() {
    let mut sensor = sensor(0, 1);
    // reads 0 and 1 are the status, 2..386 the first pass, 386 the status, 387.. the second pass
    sensor.fail_at_read = Some(500);
    let acquisition = run(&mut sensor, None);
    assert_eq!(acquisition.stage(), Stage::Failed);
    assert_eq!(acquisition.frame(), None);
    assert_eq!(*acquisition.error(), Some(AcquisitionError::Bus(failure("read refused"))));
    assert_eq!(acquisition.request(), Request::Nothing);
    // nothing was read after the failure
    assert_eq!(sensor.reads.len(), 501);
}

#[test]
fn a_failed_poll_gives_up() {
    let mut sensor = sensor(0, 4);
    sensor.fail_at_read = Some(2);
    let acquisition = run(&mut sensor, None);
    assert_eq!(acquisition.stage(), Stage::Failed);
    assert_eq!(*acquisition.error(), Some(AcquisitionError::Bus(failure("read refused"))));
    assert!(sensor.writes.is_empty());
}

#[test]
fn a_failed_write_gives_up() {
    let mut sensor = sensor(0, 1);
    sensor.fail_write = true;
    let acquisition = run(&mut sensor, None);
    assert_eq!(acquisition.stage(), Stage::Failed);
    assert_eq!(acquisition.frame(), None);
    let error = BusError { failure: BusFailure::Write, detail: "write refused".to_string() };
    assert_eq!(*acquisition.error(), Some(AcquisitionError::Bus(error)));
    assert_eq!(sensor.reads.len(), 2);
}

#[test]
fn an_ended_acquisition_takes_no_more_replies() {
    let mut sensor = sensor(0, 1);
    sensor.fail_at_read = Some(10);
    let acquisition = run(&mut sensor, None);
    let acquisition = acquisition.on_read(Ok(7)).on_write(Ok(())).on_read(Err(failure("late")));
    assert_eq!(acquisition.stage(), Stage::Failed);
    assert_eq!(*acquisition.error(), Some(AcquisitionError::Bus(failure("read refused"))));

    let mut sensor = self::sensor(0, 1);
    let done = run(&mut sensor, None);
    let frame = done.frame();
    let done = done.on_read(Ok(7)).on_write(Err(failure("late"))).on_read(Err(failure("late")));
    assert_eq!(done.stage(), Stage::Done);
    assert_eq!(done.frame(), frame);
}

#[test]
fn a_sensor_that_never_has_data_runs_into_the_limit() {
    let mut sensor = sensor(0, 0);
    let acquisition = run(&mut sensor, Some(5));
    assert_eq!(acquisition.stage(), Stage::Failed);
    assert_eq!(*acquisition.error(), Some(AcquisitionError::Timeout));
    assert_eq!(acquisition.frame(), None);
    // one read for the subpage, five polls
    assert_eq!(sensor.reads.len(), 6);
}

#[test]
fn the_limit_counts_each_wait_anew() {
    // new data on every third status read: two polls without, then one with
    let mut sensor = sensor(0, 3);
    let acquisition = run(&mut sensor, Some(3));
    assert_eq!(acquisition.stage(), Stage::Done);

    let mut sensor = self::sensor(0, 3);
    let acquisition = run(&mut sensor, Some(2));
    assert_eq!(*acquisition.error(), Some(AcquisitionError::Timeout));
}

#[test]
fn a_limit_of_zero_allows_one_poll() {
    let mut sensor = sensor(0, 0);
    let acquisition = run(&mut sensor, Some(0));
    assert_eq!(*acquisition.error(), Some(AcquisitionError::Timeout));
    assert_eq!(sensor.reads.len(), 2);
}

#[test]
fn a_reply_of_the_wrong_kind_changes_nothing() {
    let acquisition = Acquisition::new(None).on_write(Ok(()));
    assert_eq!(acquisition.stage(), Stage::Subpage);
    // status with new data: the flag is to be cleared
    let acquisition = acquisition.on_read(Ok(0x0001)).on_read(Ok(0x0009));
    assert_eq!(acquisition.stage(), Stage::Clear);
    assert_eq!(acquisition.request(), Request::Write { address: 0x8000, value: 0x0001 });
    let acquisition = acquisition.on_read(Ok(0x1234));
    assert_eq!(acquisition.stage(), Stage::Clear);
    let acquisition = acquisition.on_write(Ok(()));
    assert_eq!(acquisition.stage(), Stage::Pixels);
    assert_eq!(acquisition.request(), Request::Read { address: 0x0401 });
}
