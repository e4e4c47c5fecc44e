use litebox::sync::rwlock::{
    has_reached_max_readers, is_read_lockable, is_unlocked, is_write_locked, read_unlock, try_read,
    try_write, write_unlock, LockAction, LockEvent, ReadAcquire, Release, WriteAcquire,
};
use std::collections::HashSet;

/// What a thread does with the lock: it acquires it, holds it for a step, and releases it.
#[derive(Clone, Copy, Debug)]
enum Thread {
    Reading(ReadAcquire),
    Writing(WriteAcquire),
    HoldsForReading,
    HoldsForWriting,
    Releasing(Release),
    Finished,
}

#[derive(Clone, Copy, Debug, PartialEq)]
enum Blocked {
    No,
    OnState,
    OnNotify,
}

#[derive(Clone, Debug)]
struct World {
    state: u32,
    notify: u32,
    threads: Vec<(Thread, Blocked)>,
    value: usize,
    most_readers: usize,
}

impl World {
    fn new(readers: usize, writers: usize) -> World {
        let mut threads = vec![(Thread::Reading(ReadAcquire::Start), Blocked::No); readers];
        threads.extend(vec![(Thread::Writing(WriteAcquire::Start), Blocked::No); writers]);
        World { state: 0, notify: 0, threads, value: 0, most_readers: 0 }
    }

    fn readers(&self) -> usize {
        self.threads.iter().filter(|t| matches!(t.0, Thread::HoldsForReading)).count()
    }

    fn writers(&self) -> usize {
        self.threads.iter().filter(|t| matches!(t.0, Thread::HoldsForWriting)).count()
    }

    fn deliver(&mut self, i: usize, event: LockEvent) {
        let next = match self.threads[i].0 {
            Thread::Reading(p) => match p.next(event) {
                ReadAcquire::Locked => Thread::HoldsForReading,
                q => Thread::Reading(q),
            },
            Thread::Writing(p) => match p.next(event) {
                WriteAcquire::Locked => Thread::HoldsForWriting,
                q => Thread::Writing(q),
            },
            Thread::Releasing(p) => match p.next(event) {
                Release::Done => Thread::Finished,
                q => Thread::Releasing(q),
            },
            t => t,
        };
        self.threads[i] = (next, Blocked::No);
    }

    fn wake(&mut self, on: Blocked, limit: usize) -> usize {
        let mut woken = 0;
        for j in 0..self.threads.len() {
            if woken < limit && self.threads[j].1 == on {
                self.deliver(j, LockEvent::Unblocked);
                woken += 1;
            }
        }
        woken
    }

    fn block(&mut self, i: usize, on: Blocked, word: u32, expected: u32) {
        if word == expected {
            self.threads[i].1 = on;
        } else {
            self.deliver(i, LockEvent::Unblocked);
        }
    }

    /// One step of a thread. A weak exchange may fail although it could succeed.
    fn step(&mut self, i: usize, weak_fails: bool) {
        let action = match self.threads[i].0 {
            Thread::Reading(p) => p.action(),
            Thread::Writing(p) => p.action(),
            Thread::Releasing(p) => p.action(),
            Thread::HoldsForReading => {
                let (state, release) = read_unlock(self.state);
                self.state = state;
                self.begin_release(i, release);
                return;
            }
            Thread::HoldsForWriting => {
                self.value += 1;
                let (state, release) = write_unlock(self.state);
                self.state = state;
                self.begin_release(i, release);
                return;
            }
            Thread::Finished => return,
        };
        match action {
            LockAction::Load => self.deliver(i, LockEvent::Loaded(self.state)),
            LockAction::LoadNotify => self.deliver(i, LockEvent::Loaded(self.notify)),
            LockAction::Exchange { expected, new, weak } => {
                if self.state == expected && !(weak && weak_fails) {
                    self.state = new;
                    self.deliver(i, LockEvent::Exchanged);
                } else {
                    self.deliver(i, LockEvent::NotExchanged(self.state));
                }
            }
            LockAction::Block { expected } => self.block(i, Blocked::OnState, self.state, expected),
            LockAction::BlockNotify { expected } => {
                self.block(i, Blocked::OnNotify, self.notify, expected)
            }
            LockAction::WakeWriter => {
                self.notify = self.notify.wrapping_add(1);
                let woken = self.wake(Blocked::OnNotify, 1);
                self.deliver(i, LockEvent::Woken(woken > 0));
            }
            LockAction::WakeReaders => {
                let woken = self.wake(Blocked::OnState, usize::MAX);
                self.deliver(i, LockEvent::Woken(woken > 0));
            }
            LockAction::Done | LockAction::Fail => panic!("nothing to do: {:?}", self),
        }
        self.most_readers = self.most_readers.max(self.readers());
    }

    fn begin_release(&mut self, i: usize, release: Release) {
        self.threads[i].0 = match release {
            Release::Done => Thread::Finished,
            r => Thread::Releasing(r),
        };
    }

    fn check(&self) {
        assert!(self.writers() <= 1);
        assert!(self.writers() == 0 || self.readers() == 0);
        assert_eq!(is_write_locked(self.state), self.writers() == 1);
        assert_eq!(is_unlocked(self.state), self.writers() + self.readers() == 0);
    }

    fn runnable(&self) -> Vec<usize> {
        (0..self.threads.len())
            .filter(|&i| {
                self.threads[i].1 == Blocked::No && !matches!(self.threads[i].0, Thread::Finished)
            })
            .collect()
    }

    fn is_finished(&self) -> bool {
        self.threads.iter().all(|t| matches!(t.0, Thread::Finished))
    }
}

/// What tells worlds apart.
fn key(world: &World) -> String {
    format!("{:?}", world)
}

/// Tries all orders in which the threads can take their steps. Returns the worlds in which all have
/// finished.
fn explore(world: World) -> Vec<World> {
    let mut seen = HashSet::new();
    let mut finished = Vec::new();
    let mut todo = vec![world];
    while let Some(world) = todo.pop() {
        if !seen.insert(key(&world)) {
            continue;
        }
        world.check();
        let runnable = world.runnable();
        if runnable.is_empty() {
            assert!(world.is_finished(), "nobody can go on: {:?}", world);
            finished.push(world);
            continue;
        }
        for i in runnable {
            // To spin for long is to look at the state again and again: it is enough to look a few
            // times.
            let mut next = world.clone();
            next.step(i, false);
            shorten(&mut next);
            todo.push(next);
            let mut next = world.clone();
            next.step(i, true);
            shorten(&mut next);
            todo.push(next);
        }
    }
    finished
}

fn shorten(world: &mut World) {
    for t in world.threads.iter_mut() {
        match t.0 {
            Thread::Reading(ReadAcquire::Spin { left }) if left > 2 => {
                t.0 = Thread::Reading(ReadAcquire::Spin { left: 2 });
            }
            Thread::Writing(WriteAcquire::Spin { left, waited }) if left > 2 => {
                t.0 = Thread::Writing(WriteAcquire::Spin { left: 2, waited });
            }
            _ => {}
        }
    }
}

#[test]
fn readers_can_share() {
    let finished = explore(World::new(2, 0));
    assert!(finished.iter().any(|w| w.most_readers == 2));
    assert!(finished.iter().all(|w| w.most_readers <= 2));
}

#[test]
fn reader_and_writer_are_exclusive() {
    let finished = explore(World::new(1, 1));
    assert!(!finished.is_empty());
    assert!(finished.iter().all(|w| w.value == 1));
}

#[test]
fn writers_are_exclusive() {
    let finished = explore(World::new(0, 2));
    assert!(!finished.is_empty());
    assert!(finished.iter().all(|w| w.value == 2));
}

#[test]
fn nobody_is_left_waiting() {
    // Some orders of the steps of more threads, with full spinning.
    let mut seed: u64 = 12345;
    for _ in 0..300 {
        let mut world = World::new(3, 3);
        let mut steps = 0;
        while !world.is_finished() {
            let runnable = world.runnable();
            assert!(!runnable.is_empty(), "nobody can go on: {:?}", world);
            seed = seed.wrapping_mul(6364136223846793005).wrapping_add(1442695040888963407);
            let i = runnable[(seed >> 33) as usize % runnable.len()];
            world.step(i, (seed >> 40) % 7 == 0);
            world.check();
            steps += 1;
            assert!(steps < 100000);
        }
        assert_eq!(world.value, 3);
        assert_eq!(world.state & 0x3fff_ffff, 0);
    }
}

#[test]
fn trying_does_not_wait() {
    assert_eq!(try_read(0), Some(1));
    assert_eq!(try_read(1), Some(2));
    // Readers give way to those that wait.
    assert_eq!(try_read(0x4000_0000), None);
    assert_eq!(try_read(0x8000_0000), None);
    assert_eq!(try_read(0x3fff_ffff), None);
    assert_eq!(try_read(0x3fff_fffe), None);
    assert_eq!(try_write(0), Some(0x3fff_ffff));
    assert_eq!(try_write(0x8000_0000), Some(0xbfff_ffff));
    assert_eq!(try_write(1), None);
    assert_eq!(try_write(0x3fff_ffff), None);
}

#[test]
fn too_many_readers_fail() {
    let full = 0x3fff_fffe;
    assert!(has_reached_max_readers(full));
    assert!(!is_read_lockable(full));
    let mut p = ReadAcquire::Start;
    loop {
        match p.action() {
            LockAction::Load => p = p.next(LockEvent::Loaded(full)),
            LockAction::Fail => break,
            other => panic!("unexpected {:?}", other),
        }
    }
}

#[test]
fn releasing_wakes_those_that_wait() {
    assert_eq!(read_unlock(2), (1, Release::Done));
    assert_eq!(read_unlock(0x8000_0001), (0x8000_0000, Release::ClearWriters));
    assert_eq!(read_unlock(0xc000_0001), (0xc000_0000, Release::ClearWritersOnly));
    assert_eq!(write_unlock(0x3fff_ffff), (0, Release::Done));
    assert_eq!(write_unlock(0x7fff_ffff), (0x4000_0000, Release::ClearReaders));
    assert_eq!(write_unlock(0xffff_ffff), (0xc000_0000, Release::ClearWritersOnly));
    // Where no writer could be woken, readers are.
    let r = Release::ClearWritersOnly
        .next(LockEvent::Exchanged)
        .next(LockEvent::Woken(false))
        .next(LockEvent::Exchanged);
    assert_eq!(r, Release::WakeReaders);
}
