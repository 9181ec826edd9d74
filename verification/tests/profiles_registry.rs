//! The user-profile registry: create, read, update, list.

use ic_talent::errors::Error;
use ic_talent::identity::Identity;
use ic_talent::profiles::{State, UserProfile, UserStats};
use ic_talent::store::process_backing;

fn id(byte: u8) -> Identity {
    Identity::from_bytes(vec![byte]).unwrap()
}

fn profile(name: &str) -> UserProfile {
    UserProfile {
        id: id(99),
        name: name.to_string(),
        skill: "verification".to_string(),
        description: "writes proofs".to_string(),
        achievements: vec!["shipped".to_string(), "proved".to_string()],
        stats: UserStats { years_experience: 4, projects_completed: 11, client_satisfaction: 97 },
    }
}

#[test]
fn a_profile_is_stored_under_the_caller() {
    let mut backing = process_backing();
    let mut st = State::init(&mut backing);
    let u1 = id(1);
    assert!(matches!(st.get_user(&u1), Err(Error::NotFound)));
    st.create_user(&u1, profile("Ada")).unwrap();
    let back = st.get_user(&u1).unwrap();
    // The submitted id is replaced with the caller's own identity.
    assert!(back.id.same_as(&u1));
    assert_eq!(back.name, "Ada");
    assert_eq!(back.achievements, vec!["shipped", "proved"]);
    assert_eq!(back.stats.client_satisfaction, 97);
    let by_id = st.get_user_by_id(&u1).unwrap();
    assert_eq!(by_id.name, "Ada");
}

#[test]
fn a_second_creation_is_refused() {
    let mut backing = process_backing();
    let mut st = State::init(&mut backing);
    let u1 = id(1);
    st.create_user(&u1, profile("Ada")).unwrap();
    let again = st.create_user(&u1, profile("Bea"));
    assert!(matches!(again, Err(Error::ValidationError(_))));
    assert_eq!(st.get_user(&u1).unwrap().name, "Ada");
}

#[test]
fn updates_need_an_existing_profile() {
    let mut backing = process_backing();
    let mut st = State::init(&mut backing);
    let u1 = id(1);
    assert!(matches!(
        st.update_user(&u1, profile("Ada")),
        Err(Error::NotFound)
    ));
    st.create_user(&u1, profile("Ada")).unwrap();
    st.update_user(&u1, profile("Ada Prime")).unwrap();
    assert_eq!(st.get_user(&u1).unwrap().name, "Ada Prime");
}

#[test]
fn the_listing_holds_every_profile() {
    let mut backing = process_backing();
    let mut st = State::init(&mut backing);
    st.create_user(&id(1), profile("Ada")).unwrap();
    st.create_user(&id(2), profile("Bea")).unwrap();
    let all = st.get_user_list();
    assert_eq!(all.len(), 2);
    let mut names: Vec<String> = all.into_iter().map(|p| p.name).collect();
    names.sort();
    assert_eq!(names, vec!["Ada", "Bea"]);
}

#[test]
fn reopening_a_fresh_registry_yields_a_working_state() {
    let mut backing = process_backing();
    let mut st = State::reopen(&mut backing).expect("an empty store re-attaches");
    assert_eq!(st.get_user_list().len(), 0);
    st.create_user(&id(1), profile("Ada")).unwrap();
    assert_eq!(st.get_user(&id(1)).unwrap().name, "Ada");
}

#[test]
fn both_services_share_one_process_backing() {
    // One backing per process: the factory binds tags 0 to 3, the registry
    // tags 4 and 5, and both work side by side.
    let mut backing = process_backing();
    let mut factory = ic_talent::state::State::init(&mut backing, id(90), id(91));
    let mut registry = State::init(&mut backing);
    factory.register_admin(&id(1)).unwrap();
    factory.send_token_faucet_request(&id(2), 9).unwrap();
    registry.create_user(&id(2), profile("Ada")).unwrap();
    assert_eq!(factory.get_faucet_requests(&id(1)).unwrap().len(), 1);
    assert_eq!(registry.get_user(&id(2)).unwrap().name, "Ada");
}
