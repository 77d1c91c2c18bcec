use yozora::{Configure, Feedback, Session, SessionError, SurfaceRole};

fn session() -> Session {
    Session::new(Feedback::new(1, vec![]))
}

#[test]
fn clients_get_fresh_ids() {
    let mut s = session();
    let a = s.accept_client().unwrap();
    let b = s.accept_client().unwrap();
    assert_ne!(a, b);
    assert!(s.has_client(a) && s.has_client(b));
}

#[test]
fn surface_needs_a_known_client() {
    let mut s = session();
    assert_eq!(s.create_surface(42), Err(SessionError::UnknownClient));
}

#[test]
fn ids_exhausted_is_reported() {
    let mut s = session();
    let a = s.accept_client().unwrap();
    s.next_id = u64::MAX;
    assert_eq!(s.create_surface(a), Err(SessionError::IdsExhausted));
    assert_eq!(s.accept_client(), None);
}

#[test]
fn new_toplevel_is_activated_and_configured() {
    let mut s = session();
    let a = s.accept_client().unwrap();
    let id = s.create_surface(a).unwrap();
    assert_eq!(s.new_toplevel(id), Ok(Configure { surface: id, activated: true }));
    let x = s.surface(id).unwrap();
    assert_eq!(x.role, SurfaceRole::Toplevel);
    assert!(x.activated);
    assert_eq!(s.new_toplevel(id), Err(SessionError::RoleTaken));
    assert_eq!(s.new_popup(id), Err(SessionError::RoleTaken));
}

#[test]
fn popup_is_accepted() {
    let mut s = session();
    let a = s.accept_client().unwrap();
    let id = s.create_surface(a).unwrap();
    assert_eq!(s.new_popup(id), Ok(()));
    assert_eq!(s.surface(id).unwrap().role, SurfaceRole::Popup);
    assert_eq!(s.new_popup(999), Err(SessionError::UnknownSurface));
}

#[test]
fn commit_makes_pending_buffer_current() {
    let mut s = session();
    let a = s.accept_client().unwrap();
    let id = s.create_surface(a).unwrap();
    s.attach(id, Some(7)).unwrap();
    assert_eq!(s.surface(id).unwrap().current_buffer, None);
    s.commit(id).unwrap();
    assert_eq!(s.surface(id).unwrap().current_buffer, Some(7));
    assert_eq!(s.commit(999), Err(SessionError::UnknownSurface));
    assert_eq!(s.attach(999, None), Err(SessionError::UnknownSurface));
}

#[test]
fn disconnecting_one_client_keeps_the_other_surface() {
    let mut s = session();
    let a = s.accept_client().unwrap();
    let b = s.accept_client().unwrap();
    let sa = s.create_surface(a).unwrap();
    let sb = s.create_surface(b).unwrap();
    s.new_toplevel(sa).unwrap();
    s.new_toplevel(sb).unwrap();
    s.attach(sb, Some(3)).unwrap();
    let before = s.surface(sb).unwrap();
    s.disconnect(a);
    assert!(!s.has_client(a));
    assert!(s.has_client(b));
    assert_eq!(s.surface(sa), None);
    assert_eq!(s.surface(sb), Some(before));
    assert_eq!(s.commit(sb), Ok(()));
    assert_eq!(s.surface(sb).unwrap().current_buffer, Some(3));
}

#[test]
fn disconnect_removes_every_surface_of_the_client() {
    let mut s = session();
    let a = s.accept_client().unwrap();
    let x = s.create_surface(a).unwrap();
    let y = s.create_surface(a).unwrap();
    s.disconnect(a);
    assert!(s.surface(x).is_none() && s.surface(y).is_none());
    assert!(s.surfaces.is_empty() && s.clients.is_empty());
}
