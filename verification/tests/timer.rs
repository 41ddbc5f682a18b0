use std::time::Duration;
use timer_future::Computation;
use timer_future::Poll;
use timer_future::Task;
use timer_future::TimerFuture;

#[test]
fn new_timer_is_pending_and_holds_no_handle() {
    let timer: TimerFuture<u32> = TimerFuture::new(Duration::from_millis(50));
    assert!(!timer.is_completed());
    assert_eq!(timer.waker(), None);
    assert_eq!(timer.duration(), Duration::from_millis(50));
}

#[test]
fn pending_poll_stores_the_handle() {
    let mut timer = TimerFuture::new(Duration::new(2, 0));
    assert_eq!(timer.poll(4u32), Poll::Pending);
    assert_eq!(timer.waker(), Some(&4u32));
    assert!(!timer.is_completed());
    assert_eq!(timer.duration(), Duration::from_secs(2));
}

#[test]
fn every_pending_poll_overwrites_the_handle() {
    let mut timer = TimerFuture::new(Duration::from_millis(10));
    assert_eq!(timer.poll(1u32), Poll::Pending);
    assert_eq!(timer.poll(2u32), Poll::Pending);
    assert_eq!(timer.waker(), Some(&2u32));
    assert_eq!(timer.poll(1u32), Poll::Pending);
    assert_eq!(timer.waker(), Some(&1u32));
    assert_eq!(timer.fire(), Some(1u32));
}

#[test]
fn firing_hands_out_the_handle_of_the_latest_poll() {
    let mut timer = TimerFuture::new(Duration::from_millis(10));
    assert_eq!(timer.poll("first"), Poll::Pending);
    assert_eq!(timer.poll("second"), Poll::Pending);
    assert_eq!(timer.fire(), Some("second"));
    assert!(timer.is_completed());
    assert_eq!(timer.waker(), None);
}

#[test]
fn poll_after_firing_is_ready_and_stores_nothing() {
    let mut timer = TimerFuture::new(Duration::from_millis(10));
    assert_eq!(timer.poll(1u32), Poll::Pending);
    assert_eq!(timer.fire(), Some(1u32));
    assert_eq!(timer.poll(2u32), Poll::Ready);
    assert_eq!(timer.waker(), None);
    assert_eq!(timer.poll(3u32), Poll::Ready);
    assert!(timer.is_completed());
}

#[test]
fn firing_before_any_poll_hands_out_nothing() {
    let mut timer: TimerFuture<u32> = TimerFuture::new(Duration::from_millis(10));
    assert_eq!(timer.fire(), None);
    assert!(timer.is_completed());
    assert_eq!(timer.poll(9), Poll::Ready);
    assert_eq!(timer.waker(), None);
}

#[test]
fn completion_never_reverts() {
    let mut timer: TimerFuture<u32> = TimerFuture::new(Duration::from_millis(10));
    assert_eq!(timer.poll(5), Poll::Pending);
    assert_eq!(timer.fire(), Some(5));
    assert_eq!(timer.fire(), None);
    assert!(timer.is_completed());
    assert_eq!(timer.poll(6), Poll::Ready);
    assert_eq!(timer.fire(), None);
    assert!(timer.is_completed());
}

#[test]
fn polling_keeps_the_duration() {
    let mut timer: TimerFuture<u32> = TimerFuture::new(Duration::from_millis(1500));
    timer.poll(1);
    timer.fire();
    assert_eq!(timer.duration(), Duration::from_millis(1500));
}

#[test]
fn poll_outcomes_tell_ready_from_pending() {
    assert!(Poll::Pending.is_pending());
    assert!(!Poll::Pending.is_ready());
    assert!(Poll::Ready.is_ready());
    assert!(!Poll::Ready.is_pending());
}

#[test]
fn timer_as_a_computation_keeps_a_clone_of_the_handle() {
    let mut timer: TimerFuture<String> = TimerFuture::new(Duration::from_millis(10));
    let first = String::from("first");
    let second = String::from("second");
    assert_eq!(Computation::poll(&mut timer, &first), Poll::Pending);
    assert_eq!(timer.waker(), Some(&first));
    assert_eq!(Computation::poll(&mut timer, &second), Poll::Pending);
    assert_eq!(timer.fire(), Some(String::from("second")));
    assert_eq!(Computation::poll(&mut timer, &first), Poll::Ready);
    assert_eq!(timer.waker(), None);
    assert!(timer.is_completed());
}

#[test]
fn task_polls_a_timer_until_it_has_fired() {
    let mut task: Task<TimerFuture<u32>> = Task::new(TimerFuture::new(Duration::from_millis(10)));
    assert_eq!(task.poll_once(&4), Some(Poll::Pending));
    assert!(task.is_pending());

    // The clock reaches the timer between two polls.
    let mut timer = task.take().unwrap();
    assert_eq!(timer.fire(), Some(4));
    task.settle(timer, Poll::Pending);

    assert_eq!(task.poll_once(&4), Some(Poll::Ready));
    assert!(!task.is_pending());
    assert_eq!(task.poll_once(&4), None);
}
