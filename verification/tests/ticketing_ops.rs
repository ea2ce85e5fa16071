use custody_core::addr::Address;
use custody_core::auth::Authorization;
use custody_core::errors::CoreError;
use custody_core::records::Record;
use custody_core::store::Store;
use custody_core::ticketing::{MAX_DESCRIPTION_LEN, MAX_NAME_LEN};

fn addr(b: u8) -> Address {
    Address { bytes: vec![b; 32] }
}

fn available_tickets(store: &Store, event: &Address) -> u64 {
    for e in &store.entries {
        if e.addr.bytes == event.bytes {
            if let Record::Event(ev) = &e.rec {
                return ev.available_tickets;
            }
            panic!("record at event address is not an event");
        }
    }
    panic!("no record at event address");
}

#[test]
fn event_scenario_one_ticket_then_sold_out() {
    let program = addr(1);
    let organizer = addr(2);
    let b1 = addr(3);
    let b2 = addr(4);
    let now = 5_000;
    let mut store = Store::new(program, 0);

    let (event, _) = store
        .initialize(&organizer, b"Conf".to_vec(), b"annual".to_vec(), 10, 1, now + 1000, now, 0)
        .unwrap();
    assert_eq!(available_tickets(&store, &event), 1);

    let (ticket, _) = store.buy(&event, &b1, 0).unwrap();
    assert_eq!(available_tickets(&store, &event), 0);
    assert!(store.contains(&ticket));

    let r = store.buy(&event, &b2, 0);
    assert_eq!(r.unwrap_err(), CoreError::AllTicketsSoldOut);
    assert_eq!(available_tickets(&store, &event), 0);
}

#[test]
fn repeat_purchase_by_same_buyer_collides() {
    let program = addr(1);
    let organizer = addr(2);
    let buyer = addr(3);
    let now = 5_000;
    let mut store = Store::new(program, 0);
    let (event, _) = store
        .initialize(&organizer, b"Conf".to_vec(), b"annual".to_vec(), 10, 2, now + 1000, now, 0)
        .unwrap();

    let (first, _) = store.buy(&event, &buyer, 0).unwrap();
    let r = store.buy(&event, &buyer, 0);
    assert_eq!(r.unwrap_err(), CoreError::AddressInUse);
    assert_eq!(available_tickets(&store, &event), 1);
    assert!(store.contains(&first));

    let ticket_record: Vec<&Record> = store
        .entries
        .iter()
        .filter(|e| e.addr.bytes == first.bytes)
        .map(|e| &e.rec)
        .collect();
    assert_eq!(ticket_record.len(), 1);
    match ticket_record[0] {
        Record::Ticket(t) => {
            assert_eq!(t.event.bytes, event.bytes);
            assert_eq!(t.buyer.bytes, addr(3).bytes);
        }
        _ => panic!("record at ticket address is not a ticket"),
    }
}

#[test]
fn event_validation_errors() {
    let program = addr(1);
    let organizer = addr(2);
    let now = 5_000;
    let mut store = Store::new(program, 0);

    let long_name = vec![b'a'; MAX_NAME_LEN + 1];
    let r = store.initialize(&organizer, long_name, Vec::new(), 10, 1, now + 1, now, 0);
    assert_eq!(r.unwrap_err(), CoreError::NameTooLong);

    let long_desc = vec![b'a'; MAX_DESCRIPTION_LEN + 1];
    let r = store.initialize(&organizer, b"Conf".to_vec(), long_desc, 10, 1, now + 1, now, 0);
    assert_eq!(r.unwrap_err(), CoreError::DescriptionTooLong);

    let r = store.initialize(&organizer, b"Conf".to_vec(), Vec::new(), 10, 0, now + 1, now, 0);
    assert_eq!(r.unwrap_err(), CoreError::AvailableTicketsTooLow);

    let r = store.initialize(&organizer, b"Conf".to_vec(), Vec::new(), 10, 1, now, now, 0);
    assert_eq!(r.unwrap_err(), CoreError::StartDateInThePast);

    assert!(store.entries.is_empty());
}

#[test]
fn same_organizer_same_name_collides() {
    let program = addr(1);
    let organizer = addr(2);
    let now = 5_000;
    let mut store = Store::new(program, 0);
    store
        .initialize(&organizer, b"Conf".to_vec(), Vec::new(), 10, 1, now + 1, now, 0)
        .unwrap();
    let r = store.initialize(&organizer, b"Conf".to_vec(), Vec::new(), 10, 1, now + 1, now, 0);
    assert_eq!(r.unwrap_err(), CoreError::AddressInUse);

    let other = addr(9);
    store
        .initialize(&other, b"Conf".to_vec(), Vec::new(), 10, 1, now + 1, now, 0)
        .unwrap();
}

#[test]
fn event_funds_go_only_to_the_organizer() {
    let program = addr(1);
    let organizer = addr(2);
    let buyer = addr(3);
    let now = 5_000;
    let mut store = Store::new(program, 40);
    let (event, _) = store
        .initialize(&organizer, b"Conf".to_vec(), Vec::new(), 10, 1, now + 1, now, 100)
        .unwrap();
    store.buy(&event, &buyer, 50).unwrap();
    assert_eq!(store.balance_of(&event), Some(40));

    let stranger = Authorization::direct(addr(9));
    let r = store.withdraw_event_funds(&event, &stranger, 0, 10);
    assert_eq!(r.unwrap_err(), CoreError::NotAuthority);
    assert_eq!(store.balance_of(&event), Some(40));

    let auth = Authorization::direct(addr(2));
    let r = store.withdraw_event_funds(&event, &auth, 0, 41);
    assert_eq!(r.unwrap_err(), CoreError::InsufficientBalance);

    let organizer_after = store.withdraw_event_funds(&event, &auth, 5, 30).unwrap();
    assert_eq!(organizer_after, 35);
    assert_eq!(store.balance_of(&event), Some(10));
}

#[test]
fn ticket_creation_needs_the_custodial_minimum() {
    let program = addr(1);
    let organizer = addr(2);
    let now = 5_000;
    let mut store = Store::new(program, 40);
    let (event, rest) = store
        .initialize(&organizer, b"Conf".to_vec(), Vec::new(), 10, 1, now + 1, now, 100)
        .unwrap();
    assert_eq!(rest, 60);
    let r = store.buy(&event, &addr(3), 39);
    assert_eq!(r.unwrap_err(), CoreError::InsufficientBalance);
    assert_eq!(available_tickets(&store, &event), 1);
    let (_, buyer_rest) = store.buy(&event, &addr(3), 41).unwrap();
    assert_eq!(buyer_rest, 1);
}
