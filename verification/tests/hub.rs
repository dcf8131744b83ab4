use chess_hub::chess_server::{ChessServer, Delivery};
use chess_hub::generator::SessionIdGenerator;
use chess_hub::messages::{Disconnect, InMessage, NewConnection};
use chess_hub::types::DeliveryHandle;

fn handle(token: usize) -> DeliveryHandle {
    DeliveryHandle { token }
}

fn targets(ds: &[Delivery]) -> Vec<usize> {
    ds.iter().map(|d| d.to).collect()
}

#[test]
fn generator_issues_distinct_increasing_ids() {
    let mut gen = SessionIdGenerator::default();
    let a = gen.generate();
    let b = gen.generate();
    let c = gen.generate();
    assert_eq!(a, 1);
    assert_eq!(b, 2);
    assert_eq!(c, 3);
    assert!(a >= 1 && b >= 1 && c >= 1);
    assert!(a != b && b != c && a != c);
}

#[test]
fn join_assigns_fresh_ids() {
    let mut hub = ChessServer::default();
    let (a, _) = hub.handle_new_connection(NewConnection { addr: handle(10) });
    let (b, _) = hub.handle_new_connection(NewConnection { addr: handle(20) });
    assert_eq!(a, 1);
    assert_eq!(b, 2);
    assert_ne!(a, b);
    assert_ne!(a, 0);
    assert_ne!(b, 0);
}

#[test]
fn join_registers_and_welcomes() {
    let mut hub = ChessServer::default();
    let (id, ds) = hub.handle_new_connection(NewConnection { addr: handle(10) });
    // only the welcome: nobody else is registered yet
    assert_eq!(ds.len(), 1);
    assert_eq!(ds[0].to, id);
    assert_eq!(ds[0].handle, handle(10));
    assert_eq!(ds[0].message.0, "Welcome");
}

#[test]
fn second_join_notifies_the_first() {
    let mut hub = ChessServer::default();
    let (a, _) = hub.handle_new_connection(NewConnection { addr: handle(10) });
    let (b, ds) = hub.handle_new_connection(NewConnection { addr: handle(20) });
    assert_eq!(ds.len(), 2);
    // the welcome goes to the new connection through its own handle
    assert_eq!(ds[0].to, b);
    assert_eq!(ds[0].handle, handle(20));
    assert_eq!(ds[0].message.0, "Welcome");
    // the join notice goes to the other connection, not back to the new one
    assert_eq!(ds[1].to, a);
    assert_eq!(ds[1].handle, handle(10));
    assert_eq!(ds[1].message.0, "Someone joined");
}

#[test]
fn relay_reaches_all_but_sender() {
    let mut hub = ChessServer::default();
    let (a, _) = hub.handle_new_connection(NewConnection { addr: handle(10) });
    let (b, _) = hub.handle_new_connection(NewConnection { addr: handle(20) });
    let (c, _) = hub.handle_new_connection(NewConnection { addr: handle(30) });
    let ds = hub.handle_in_message(InMessage { id: b, content: "news".to_string() });
    assert_eq!(targets(&ds), vec![a, c]);
    for d in &ds {
        assert_eq!(d.message.0, "news");
        assert_ne!(d.to, b);
    }
}

#[test]
fn relay_with_no_others_delivers_to_nobody() {
    let mut hub = ChessServer::default();
    let (a, _) = hub.handle_new_connection(NewConnection { addr: handle(10) });
    let ds = hub.handle_in_message(InMessage { id: a, content: "alone".to_string() });
    assert!(ds.is_empty());
}

#[test]
fn relay_from_unregistered_sender_reaches_all() {
    let mut hub = ChessServer::default();
    let (a, _) = hub.handle_new_connection(NewConnection { addr: handle(10) });
    let (b, _) = hub.handle_new_connection(NewConnection { addr: handle(20) });
    // the sender raced with its own removal: everyone registered still gets it
    let ds = hub.handle_in_message(InMessage { id: 99, content: "late".to_string() });
    assert_eq!(targets(&ds), vec![a, b]);
}

#[test]
fn leave_removes_and_notifies_the_rest() {
    let mut hub = ChessServer::default();
    let (a, _) = hub.handle_new_connection(NewConnection { addr: handle(10) });
    let (b, _) = hub.handle_new_connection(NewConnection { addr: handle(20) });
    let ds = hub.handle_disconnect(Disconnect { id: a });
    // the disconnect notice reaches every remaining connection
    assert_eq!(targets(&ds), vec![b]);
    assert_eq!(ds[0].message.0, "Someone disconnected");
    // the departed connection no longer receives relays
    let ds2 = hub.handle_in_message(InMessage { id: b, content: "hi".to_string() });
    assert!(ds2.is_empty());
}

#[test]
fn leave_of_absent_id_is_a_noop() {
    let mut hub = ChessServer::default();
    let (a, _) = hub.handle_new_connection(NewConnection { addr: handle(10) });
    let (b, _) = hub.handle_new_connection(NewConnection { addr: handle(20) });
    let ds = hub.handle_disconnect(Disconnect { id: 42 });
    // no error, and the notice still reaches every registered connection
    assert_eq!(targets(&ds), vec![a, b]);
    // other entries are unaffected: a relay from a still reaches b
    let ds2 = hub.handle_in_message(InMessage { id: a, content: "still here".to_string() });
    assert_eq!(targets(&ds2), vec![b]);
}

#[test]
fn unicast_reaches_only_the_recipient() {
    let mut hub = ChessServer::default();
    let (a, _) = hub.handle_new_connection(NewConnection { addr: handle(10) });
    let d = hub.send_message("psst", a).expect("recipient is registered");
    assert_eq!(d.to, a);
    assert_eq!(d.handle, handle(10));
    assert_eq!(d.message.0, "psst");
    assert!(hub.send_message("lost", 7).is_none());
}

#[test]
fn capacity_and_lookup_report_the_registry() {
    let mut hub = ChessServer::default();
    assert!(hub.can_accept());
    let (a, _) = hub.handle_new_connection(NewConnection { addr: handle(10) });
    assert_eq!(hub.lookup(a), Some(handle(10)));
    assert_eq!(hub.lookup(99), None);
    let mut gen = SessionIdGenerator::default();
    assert!(gen.has_next());
    let _ = gen.generate();
    assert!(gen.has_next());
}

#[test]
fn scenario_two_clients_chat_and_part() {
    let mut hub = ChessServer::default();
    let (a, _) = hub.handle_new_connection(NewConnection { addr: handle(1) });
    let (b, _) = hub.handle_new_connection(NewConnection { addr: handle(2) });
    // a sends "hello": b receives exactly "hello", a receives nothing
    let ds = hub.handle_in_message(InMessage { id: a, content: "hello".to_string() });
    assert_eq!(ds.len(), 1);
    assert_eq!(ds[0].to, b);
    assert_eq!(ds[0].message.0, "hello");
    // a disconnects: b receives the disconnect notice
    let ds2 = hub.handle_disconnect(Disconnect { id: a });
    assert_eq!(targets(&ds2), vec![b]);
    assert_eq!(ds2[0].message.0, "Someone disconnected");
    // b sends "hi": only b remains, so nobody receives it
    let ds3 = hub.handle_in_message(InMessage { id: b, content: "hi".to_string() });
    assert!(ds3.is_empty());
}

#[test]
fn dead_handle_stays_registered_until_leave() {
    let mut hub = ChessServer::default();
    let (a, _) = hub.handle_new_connection(NewConnection { addr: handle(10) });
    let (b, _) = hub.handle_new_connection(NewConnection { addr: handle(20) });
    // b's peer went away without a close: pushing to its handle now silently
    // fails outside the hub. The hub still lists b as a broadcast target and
    // the relay call itself never errors.
    let ds = hub.handle_in_message(InMessage { id: a, content: "anyone?".to_string() });
    assert_eq!(targets(&ds), vec![b]);
    // only an explicit leave removes b
    let _ = hub.handle_disconnect(Disconnect { id: b });
    let ds2 = hub.handle_in_message(InMessage { id: a, content: "anyone?".to_string() });
    assert!(ds2.is_empty());
}
