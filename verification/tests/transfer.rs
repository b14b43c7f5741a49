use block::{IoVec, RawFileSync, Request, Scratch, Segment, Step, Submission};

#[derive(Clone, Debug, PartialEq)]
enum Call {
    Read { offset: i64, len: usize },
    Write { offset: i64, len: usize },
    Sync,
}

/// A file and memory that carry out requests the way positioned vectored
/// system calls do.
struct Machine {
    file: Vec<u8>,
    memory: Vec<(u64, Vec<u8>)>,
    scratch: [Vec<u8>; 4],
    calls: Vec<Call>,
}

fn slot_index(slot: Scratch) -> usize {
    match slot {
        Scratch::Before => 0,
        Scratch::First => 1,
        Scratch::Last => 2,
        Scratch::After => 3,
    }
}

fn pattern(len: usize) -> Vec<u8> {
    (0..len).map(|i| (i % 251) as u8 + 1).collect()
}

impl Machine {
    fn new(file: Vec<u8>, memory: Vec<(u64, Vec<u8>)>) -> Machine {
        Machine { file, memory, scratch: [vec![], vec![], vec![], vec![]], calls: vec![] }
    }

    fn iovecs(&self) -> Vec<IoVec> {
        self.memory.iter().map(|(base, bytes)| IoVec { base: *base, len: bytes.len() as u64 }).collect()
    }

    fn buffer(&mut self, segment: &Segment) -> &mut Vec<u8> {
        match segment {
            Segment::Caller(iovec) => {
                let found = self.memory.iter_mut().find(|(base, _)| *base == iovec.base);
                let bytes = &mut found.expect("the segment is memory of the submitter").1;
                assert_eq!(bytes.len() as u64, iovec.len);
                bytes
            }
            Segment::Scratch { slot, len, .. } => {
                let bytes = &mut self.scratch[slot_index(*slot)];
                if bytes.len() as u64 != *len {
                    // A fresh buffer holds bytes that are neither the
                    // file's nor zero.
                    *bytes = vec![0xEE; *len as usize];
                }
                bytes
            }
        }
    }

    fn perform(&mut self, request: &Request) -> (i64, i32) {
        match request {
            Request::Read { offset, segments } => {
                let wanted: usize = segments.iter().map(|s| s.len() as usize).sum();
                self.calls.push(Call::Read { offset: *offset, len: wanted });
                if *offset < 0 {
                    return (-1, 22);
                }
                let begin = (*offset as usize).min(self.file.len());
                let end = (begin + wanted).min(self.file.len());
                let stream = self.file[begin..end].to_vec();
                let mut at = 0;
                for segment in segments {
                    let buffer = self.buffer(segment);
                    for byte in buffer.iter_mut() {
                        if at < stream.len() {
                            *byte = stream[at];
                            at += 1;
                        }
                    }
                }
                (stream.len() as i64, 0)
            }
            Request::Write { offset, segments } => {
                let mut stream = vec![];
                for segment in segments {
                    stream.extend_from_slice(self.buffer(segment));
                }
                self.calls.push(Call::Write { offset: *offset, len: stream.len() });
                if *offset < 0 {
                    return (-1, 22);
                }
                let begin = *offset as usize;
                if !stream.is_empty() && self.file.len() < begin + stream.len() {
                    self.file.resize(begin + stream.len(), 0);
                }
                self.file[begin..begin + stream.len()].copy_from_slice(&stream);
                (stream.len() as i64, 0)
            }
            Request::Sync => {
                self.calls.push(Call::Sync);
                (0, 0)
            }
        }
    }

    fn run(&mut self, engine: &mut RawFileSync, submission: Submission) -> Step {
        let mut submission = submission;
        loop {
            let (ret, errno) = self.perform(&submission.request());
            match engine.resume(submission, ret, errno) {
                Step::Pending(next) => submission = next,
                done => return done,
            }
        }
    }
}

#[test]
fn write_within_one_sector_keeps_the_rest_of_it() {
    let before = pattern(1024);
    let mut machine = Machine::new(before.clone(), vec![(0x1000, vec![0xAB; 100])]);
    let mut engine = RawFileSync::new(3, Some(512));
    let iovecs = machine.iovecs();

    let submission = engine.write_vectored(50, &iovecs, 7);
    let step = machine.run(&mut engine, submission);

    assert_eq!(step, Step::Completed { user_data: 7, result: 100 });
    assert_eq!(
        machine.calls,
        vec![
            Call::Read { offset: 0, len: 512 },
            Call::Read { offset: 0, len: 512 },
            Call::Write { offset: 0, len: 512 },
        ]
    );
    assert_eq!(machine.file.len(), 1024);
    assert_eq!(machine.file[..50], before[..50]);
    assert_eq!(machine.file[50..150], [0xAB; 100]);
    assert_eq!(machine.file[150..512], before[150..512]);
    assert_eq!(machine.file[512..], before[512..]);
    // What was put back is what the reads found, not a filler.
    assert_eq!(machine.scratch[0], before[..50]);
    assert_eq!(machine.scratch[3], before[150..512]);
    assert_eq!(engine.next_completed_request(), Some((7, 100)));
    assert_eq!(engine.next_completed_request(), None);
}

#[test]
fn write_across_sectors_keeps_both_ends() {
    let before = pattern(4096);
    let first = vec![0x11; 1500];
    let second = vec![0x22; 500];
    let mut machine =
        Machine::new(before.clone(), vec![(0x1000, first.clone()), (0x9000, second.clone())]);
    let mut engine = RawFileSync::new(3, Some(512));
    let iovecs = machine.iovecs();

    let submission = engine.write_vectored(1000, &iovecs, 8);
    let step = machine.run(&mut engine, submission);

    assert_eq!(step, Step::Completed { user_data: 8, result: 2000 });
    assert_eq!(
        machine.calls,
        vec![
            Call::Read { offset: 512, len: 512 },
            Call::Read { offset: 2560, len: 512 },
            Call::Write { offset: 512, len: 2560 },
        ]
    );
    assert_eq!(machine.file.len(), 4096);
    assert_eq!(machine.file[..1000], before[..1000]);
    assert_eq!(machine.file[1000..2500], first[..]);
    assert_eq!(machine.file[2500..3000], second[..]);
    assert_eq!(machine.file[3000..], before[3000..]);
}

#[test]
fn framed_write_changes_the_file_as_the_plain_write_does() {
    let data = vec![(0x1000, vec![0x5A; 777]), (0x2000, vec![0xA5; 1])];
    for offset in [0i64, 1, 511, 512, 513, 1000, 2047] {
        let mut framed = Machine::new(pattern(4096), data.clone());
        let mut plain = Machine::new(pattern(4096), data.clone());
        let mut framed_engine = RawFileSync::new(3, Some(512));
        let mut plain_engine = RawFileSync::new(3, None);

        let submission = framed_engine.write_vectored(offset, &framed.iovecs(), 1);
        let framed_step = framed.run(&mut framed_engine, submission);
        let submission = plain_engine.write_vectored(offset, &plain.iovecs(), 1);
        let plain_step = plain.run(&mut plain_engine, submission);

        assert_eq!(framed_step, Step::Completed { user_data: 1, result: 778 });
        assert_eq!(framed_step, plain_step);
        assert_eq!(framed.file, plain.file);
        assert_eq!(plain.calls, vec![Call::Write { offset, len: 778 }]);
    }
}

#[test]
fn framed_write_into_a_short_file_keeps_what_the_file_held() {
    let before = pattern(100);
    let mut machine = Machine::new(before.clone(), vec![(0x1000, vec![0x77; 10])]);
    let mut engine = RawFileSync::new(3, Some(512));
    let iovecs = machine.iovecs();

    let submission = engine.write_vectored(50, &iovecs, 9);
    let step = machine.run(&mut engine, submission);

    assert_eq!(step, Step::Completed { user_data: 9, result: 10 });
    assert_eq!(machine.file.len(), 512);
    assert_eq!(machine.file[..50], before[..50]);
    assert_eq!(machine.file[50..60], [0x77; 10]);
    assert_eq!(machine.file[60..100], before[60..100]);
}

#[test]
fn framed_read_gives_the_submitter_only_the_extent() {
    let file = pattern(2048);
    let mut machine =
        Machine::new(file.clone(), vec![(0x1000, vec![0; 60]), (0x3000, vec![0; 40])]);
    let mut engine = RawFileSync::new(3, Some(512));
    let iovecs = machine.iovecs();

    let submission = engine.read_vectored(550, &iovecs, 9);
    let step = machine.run(&mut engine, submission);

    assert_eq!(step, Step::Completed { user_data: 9, result: 100 });
    assert_eq!(machine.calls, vec![Call::Read { offset: 512, len: 512 }]);
    assert_eq!(machine.memory[0].1, file[550..610]);
    assert_eq!(machine.memory[1].1, file[610..650]);
    assert_eq!(machine.scratch[0], file[512..550]);
    assert_eq!(machine.scratch[3], file[650..1024]);
    assert_eq!(machine.file, file);
}

#[test]
fn framed_read_fills_memory_as_the_plain_read_does() {
    let memory = vec![(0x1000, vec![0xCC; 300]), (0x2000, vec![0xCC; 0]), (0x3000, vec![0xCC; 900])];
    for file_len in [0usize, 100, 700, 1199, 1200, 1600, 4096] {
        for offset in [0i64, 1, 300, 512, 1000] {
            let mut framed = Machine::new(pattern(file_len), memory.clone());
            let mut plain = Machine::new(pattern(file_len), memory.clone());
            let mut framed_engine = RawFileSync::new(3, Some(512));
            let mut plain_engine = RawFileSync::new(3, None);

            let submission = framed_engine.read_vectored(offset, &framed.iovecs(), 1);
            framed.run(&mut framed_engine, submission);
            let submission = plain_engine.read_vectored(offset, &plain.iovecs(), 1);
            plain.run(&mut plain_engine, submission);

            assert_eq!(framed.memory, plain.memory);
        }
    }
}

#[test]
fn framed_read_beyond_the_end_reports_less_than_it_gave() {
    // The file ends 50 bytes into the extent. The submitter gets those 50
    // bytes, and the completion takes the whole of both buffers off the 88
    // bytes that came.
    let file = pattern(600);
    let mut machine = Machine::new(file.clone(), vec![(0x1000, vec![0; 100])]);
    let mut engine = RawFileSync::new(3, Some(512));
    let iovecs = machine.iovecs();

    let submission = engine.read_vectored(550, &iovecs, 9);
    let step = machine.run(&mut engine, submission);

    assert_eq!(step, Step::Completed { user_data: 9, result: 88 - 38 - 374 });
    assert_eq!(machine.memory[0].1[..50], file[550..600]);
    assert_eq!(machine.memory[0].1[50..], [0; 50]);
}

#[test]
fn flush_is_one_call() {
    let mut machine = Machine::new(pattern(10), vec![]);
    let mut engine = RawFileSync::new(3, Some(512));
    let submission = engine.fsync(Some(5));
    assert_eq!(machine.run(&mut engine, submission), Step::Completed { user_data: 5, result: 0 });
    let submission = engine.fsync(None);
    assert_eq!(machine.run(&mut engine, submission), Step::Finished);
    assert_eq!(machine.calls, vec![Call::Sync, Call::Sync]);
    assert_eq!(machine.file, pattern(10));
}
