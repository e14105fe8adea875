use eduka::batch::page_locators;
use eduka::batch::start_download;
use eduka::batch::BatchAction;
use eduka::batch::BatchCoordinator;

#[test]
fn coordinator_launches_each_locator_once_in_order() {
    let total = 5;
    let batch = 2;
    let mut c = BatchCoordinator::new(total, batch);
    let mut launched: Vec<usize> = Vec::new();
    let mut max_in_flight = 0;
    loop {
        match c.next_action() {
            BatchAction::Launch(i) => {
                launched.push(i);
                c.note_launched();
            }
            BatchAction::Wait => {
                c.note_completed();
            }
            BatchAction::Done => break,
        }
        let in_flight = c.launched - c.completed;
        if in_flight > max_in_flight {
            max_in_flight = in_flight;
        }
    }
    assert_eq!(launched, vec![0, 1, 2, 3, 4]);
    assert!(max_in_flight <= batch);
}

#[test]
fn coordinator_lock_step_waits_at_group_boundary() {
    let mut c = BatchCoordinator::new(3, 2);
    assert_eq!(c.next_action(), BatchAction::Launch(0));
    c.note_launched();
    assert_eq!(c.next_action(), BatchAction::Launch(1));
    c.note_launched();
    assert_eq!(c.next_action(), BatchAction::Wait);
    c.note_completed();
    assert_eq!(c.next_action(), BatchAction::Wait);
    c.note_completed();
    assert_eq!(c.next_action(), BatchAction::Launch(2));
    c.note_launched();
    assert_eq!(c.next_action(), BatchAction::Wait);
    c.note_completed();
    assert_eq!(c.next_action(), BatchAction::Done);
}

#[test]
fn coordinator_with_batch_one_is_sequential() {
    let mut c = BatchCoordinator::new(2, 1);
    assert_eq!(c.next_action(), BatchAction::Launch(0));
    c.note_launched();
    assert_eq!(c.next_action(), BatchAction::Wait);
    c.note_completed();
    assert_eq!(c.next_action(), BatchAction::Launch(1));
    c.note_launched();
    c.note_completed();
    assert_eq!(c.next_action(), BatchAction::Done);
}

#[test]
fn coordinator_with_no_locators_is_done_at_once() {
    let c = BatchCoordinator::new(0, 4);
    assert_eq!(c.next_action(), BatchAction::Done);
}

#[test]
fn locators_pair_each_address_with_its_index() {
    let urls = vec![String::from("/img/a.png"), String::from("/img/b.png")];
    let locators = page_locators(&urls);
    assert_eq!(locators.len(), 2);
    assert_eq!(locators[0].index, 0);
    assert_eq!(locators[0].url, "/img/a.png");
    assert_eq!(locators[1].index, 1);
    assert_eq!(locators[1].url, "/img/b.png");
}

#[test]
fn existing_directory_skips_the_whole_batch() {
    assert!(start_download(true, 7, 3).is_none());
}

#[test]
fn second_invocation_on_existing_directory_writes_nothing() {
    let first = start_download(false, 4, 2);
    let c = first.expect("fresh destination must start a download");
    assert_eq!(c.total, 4);
    assert_eq!(c.launched, 0);
    let second = start_download(true, 4, 2);
    assert!(second.is_none());
}
