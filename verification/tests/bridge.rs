use luau::allocator::bridge::{decode_call, raw_alloc, reply, AllocatorCall};
use luau::allocator::{LuauAllocator, NULL};

fn non_null(address: usize) -> Option<usize> {
    if address == NULL {
        None
    } else {
        Some(address)
    }
}

/// An allocator that writes down what it is asked and answers as told.
#[derive(Clone)]
struct Recorder {
    calls: Vec<AllocatorCall>,
    answer: Option<usize>,
}

impl Recorder {
    fn answering(answer: Option<usize>) -> Self {
        Recorder { calls: Vec::new(), answer }
    }
}

impl Recorder {
    /// `after` is this recorder with `call` written down behind the others.
    fn wrote_down(&self, call: AllocatorCall, after: &Self) -> bool {
        let mut expected = self.calls.clone();
        expected.push(call);
        after.calls == expected && after.answer == self.answer
    }
}

impl LuauAllocator for Recorder {
    fn allocates(&self, size: usize, after: &Self, address: Option<usize>) -> bool {
        self.wrote_down(AllocatorCall::Alloc { size }, after) && address == self.answer
    }

    fn reallocates(
        &self,
        ptr: usize,
        old_size: usize,
        new_size: usize,
        after: &Self,
        address: Option<usize>,
    ) -> bool {
        self.wrote_down(AllocatorCall::Realloc { ptr, old_size, new_size }, after)
            && address == self.answer
    }

    fn frees(&self, ptr: usize, size: usize, after: &Self) -> bool {
        self.wrote_down(AllocatorCall::Free { ptr, size }, after)
    }

    fn allocate(&mut self, size: usize) -> Option<usize> {
        self.calls.push(AllocatorCall::Alloc { size });
        self.answer
    }

    fn realloc(&mut self, ptr: usize, old_size: usize, new_size: usize) -> Option<usize> {
        self.calls.push(AllocatorCall::Realloc { ptr, old_size, new_size });
        self.answer
    }

    fn free(&mut self, ptr: usize, size: usize) {
        self.calls.push(AllocatorCall::Free { ptr, size });
    }
}

#[test]
fn null_is_zero() {
    assert_eq!(NULL, 0);
    assert_eq!(NULL, std::ptr::null::<u8>() as usize);
}

#[test]
fn decode_call_reads_the_three_shapes() {
    assert_eq!(decode_call(0, 0, 24), Some(AllocatorCall::Alloc { size: 24 }));
    assert_eq!(
        decode_call(0x1000, 24, 48),
        Some(AllocatorCall::Realloc { ptr: 0x1000, old_size: 24, new_size: 48 })
    );
    assert_eq!(decode_call(0x1000, 24, 0), Some(AllocatorCall::Free { ptr: 0x1000, size: 24 }));
}

#[test]
fn decode_call_refuses_every_other_shape() {
    assert_eq!(decode_call(0, 0, 0), None);
    assert_eq!(decode_call(0, 24, 0), None);
    assert_eq!(decode_call(0, 24, 48), None);
    assert_eq!(decode_call(0x1000, 0, 0), None);
    assert_eq!(decode_call(0x1000, 0, 48), None);
}

#[test]
fn reply_turns_no_memory_into_null() {
    assert_eq!(reply(Some(0x1000)), 0x1000);
    assert_eq!(reply(None), NULL);
}

#[test]
fn bridge_forwards_allocation() {
    let mut recorder = Recorder::answering(Some(0x1000));
    assert_eq!(raw_alloc(&mut recorder, 0, 0, 24), 0x1000);
    assert_eq!(recorder.calls, vec![AllocatorCall::Alloc { size: 24 }]);
}

#[test]
fn bridge_forwards_resize() {
    let mut recorder = Recorder::answering(Some(0x2000));
    assert_eq!(raw_alloc(&mut recorder, 0x1000, 24, 48), 0x2000);
    assert_eq!(
        recorder.calls,
        vec![AllocatorCall::Realloc { ptr: 0x1000, old_size: 24, new_size: 48 }]
    );
}

#[test]
fn bridge_forwards_free_and_returns_null() {
    let mut recorder = Recorder::answering(Some(0x2000));
    assert_eq!(raw_alloc(&mut recorder, 0x1000, 24, 0), NULL);
    assert_eq!(recorder.calls, vec![AllocatorCall::Free { ptr: 0x1000, size: 24 }]);
}

#[test]
fn bridge_signals_no_memory_with_null() {
    let mut recorder = Recorder::answering(None);
    assert_eq!(raw_alloc(&mut recorder, 0, 0, 24), NULL);
    assert_eq!(raw_alloc(&mut recorder, 0x1000, 24, 48), NULL);
    assert_eq!(recorder.calls.len(), 2);
}

#[test]
fn bridge_keeps_what_the_allocator_states_of_itself() {
    let before = Recorder::answering(Some(0x1000));

    let mut after = before.clone();
    let address: usize = raw_alloc(&mut after, 0, 0, 24);
    assert!(before.allocates(24, &after, non_null(address)));
    assert!(!before.allocates(25, &after, non_null(address)));

    let mut after = before.clone();
    let address: usize = raw_alloc(&mut after, 0x2000, 24, 48);
    assert!(before.reallocates(0x2000, 24, 48, &after, non_null(address)));
    assert!(!before.reallocates(0x2000, 48, 24, &after, non_null(address)));

    let mut after = before.clone();
    let address: usize = raw_alloc(&mut after, 0x2000, 24, 0);
    assert!(before.frees(0x2000, 24, &after));
    assert!(!before.frees(0x2000, 24, &before));
    assert_eq!(address, NULL);

    let refusing = Recorder::answering(None);
    let mut after = refusing.clone();
    let address: usize = raw_alloc(&mut after, 0, 0, 24);
    assert!(refusing.allocates(24, &after, non_null(address)));
    assert_eq!(non_null(address), None);
}
