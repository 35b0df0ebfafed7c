use chat_core::{
    events, post, Endpoint, Message, Rooms, SavedMessages, Signal, Step, QUEUE_CAPACITY,
};
use rocket::tokio::sync::broadcast::channel;
use rocket::tokio::sync::broadcast::error::TryRecvError;

fn line(i: usize) -> Message {
    Message {
        room: String::from("lobby"),
        username: String::from("alice"),
        message: format!("line {} of the minutes", i),
        color: String::from("teal"),
    }
}

#[test]
fn slow_listener_lags_and_holds_nobody_up() {
    let (queue, mut slow) = channel::<Message>(QUEUE_CAPACITY);
    let mut quick = queue.subscribe();
    let mut slow_end = Endpoint::new();
    let mut quick_end = Endpoint::new();
    let mut rooms = Rooms::new();
    let mut saved = SavedMessages::new();
    let extra = 5;
    for i in 0..QUEUE_CAPACITY + extra {
        let passed = post(line(i), &mut rooms, &mut saved).unwrap();
        assert_eq!(queue.send(passed).ok(), Some(2));
        let got = quick.try_recv().unwrap();
        assert_eq!(events(&mut quick_end, Signal::Received(got)), Step::Emit(line(i)));
    }
    assert_eq!(quick.try_recv(), Err(TryRecvError::Empty));
    match slow.try_recv() {
        Err(TryRecvError::Lagged(missed)) => {
            assert_eq!(missed, 5);
            assert_eq!(events(&mut slow_end, Signal::Lagged(missed)), Step::Wait);
        }
        other => panic!("{:?}", other),
    }
    let next = slow.try_recv().unwrap();
    assert_eq!(events(&mut slow_end, Signal::Received(next)), Step::Emit(line(extra)));
    assert!(slow_end.open());
}

#[test]
fn new_listener_sees_nothing_of_the_past() {
    let (queue, mut early) = channel::<Message>(QUEUE_CAPACITY);
    assert!(queue.send(line(1)).is_ok());
    let mut late = queue.subscribe();
    assert_eq!(late.try_recv(), Err(TryRecvError::Empty));
    assert_eq!(early.try_recv(), Ok(line(1)));
}

#[test]
fn closed_queue_ends_the_stream() {
    let (queue, mut listener) = channel::<Message>(QUEUE_CAPACITY);
    drop(queue);
    let mut endpoint = Endpoint::new();
    match listener.try_recv() {
        Err(TryRecvError::Closed) => {
            assert_eq!(events(&mut endpoint, Signal::Closed), Step::End);
        }
        other => panic!("{:?}", other),
    }
    assert!(!endpoint.open());
}
