use user_store::{Repository, User, UserRepository, UserRole, UserService};

#[test]
fn first_two_created_users_get_one_and_two() {
    let mut repo = UserRepository::new();
    let mut service = UserService::new(&mut repo);
    let first = service.create_user("Ann".to_string(), "ann@x.com".to_string());
    let second = service.create_user("Bob".to_string(), "bob@x.com".to_string());
    assert_eq!(first.id, 1);
    assert_eq!(second.id, 2);
    assert_eq!(repo.len(), 2);
}

#[test]
fn created_user_is_returned_and_stored() {
    let mut repo = UserRepository::new();
    let mut service = UserService::new(&mut repo);
    let ann = service.create_user("Ann".to_string(), "ann@x.com".to_string());
    assert_eq!(ann.id, 1);
    assert_eq!(ann.name, "Ann");
    assert_eq!(ann.email, "ann@x.com");
    let stored = repo.get_by_id(1).expect("stored under 1");
    assert_eq!(stored.id, 1);
    assert_eq!(stored.name, "Ann");
    assert_eq!(stored.email, "ann@x.com");
}

#[test]
fn identifier_goes_by_count_not_by_taken_identifiers() {
    let mut repo = UserRepository::new();
    repo.add(User { id: 5, name: "Five".to_string(), email: "five@x.com".to_string() });
    let mut service = UserService::new(&mut repo);
    let created = service.create_user("Ann".to_string(), "ann@x.com".to_string());
    assert_eq!(created.id, 2);
    assert_eq!(repo.len(), 2);
    assert_eq!(repo.get_by_id(5).expect("still stored under 5").name, "Five");
    assert_eq!(repo.get_by_id(2).expect("stored under 2").name, "Ann");
    assert!(repo.get_by_id(6).is_none());
}

#[test]
fn taken_identifier_is_overwritten_and_given_out_again() {
    let mut repo = UserRepository::new();
    repo.add(User { id: 2, name: "Two".to_string(), email: "two@x.com".to_string() });
    let mut service = UserService::new(&mut repo);
    let ann = service.create_user("Ann".to_string(), "ann@x.com".to_string());
    assert_eq!(ann.id, 2);
    let bob = service.create_user("Bob".to_string(), "bob@x.com".to_string());
    assert_eq!(bob.id, 2);
    assert_eq!(repo.len(), 1);
    let stored = repo.get_by_id(2).expect("stored under 2");
    assert_eq!(stored.name, "Bob");
    assert_eq!(stored.email, "bob@x.com");
}

#[test]
fn generate_id_is_count_plus_one() {
    let mut repo = UserRepository::new();
    {
        let service = UserService::new(&mut repo);
        assert_eq!(service.generate_id(), 1);
        assert_eq!(service.generate_id(), 1);
    }
    repo.add(User { id: 10, name: "Ten".to_string(), email: "ten@x.com".to_string() });
    repo.add(User { id: 20, name: "Twenty".to_string(), email: "twenty@x.com".to_string() });
    repo.add(User { id: 30, name: "Thirty".to_string(), email: "thirty@x.com".to_string() });
    let service = UserService::new(&mut repo);
    assert_eq!(service.generate_id(), 4);
}

#[test]
fn new_service_leaves_the_repository_untouched() {
    let mut repo = UserRepository::new();
    repo.add(User { id: 1, name: "Ann".to_string(), email: "ann@x.com".to_string() });
    {
        let _service = UserService::new(&mut repo);
    }
    assert_eq!(repo.len(), 1);
    assert_eq!(repo.get_by_id(1).expect("stored under 1").name, "Ann");
}

#[test]
fn returned_user_is_independent_of_the_stored_copy() {
    let mut repo = UserRepository::new();
    let mut service = UserService::new(&mut repo);
    let mut ann = service.create_user("Ann".to_string(), "ann@x.com".to_string());
    ann.name.push_str(" changed");
    ann.id = 77;
    assert_eq!(repo.get_by_id(1).expect("stored under 1").name, "Ann");
    assert!(repo.get_by_id(77).is_none());
}

#[test]
fn many_created_users_are_numbered_in_order() {
    let mut repo = UserRepository::new();
    let mut service = UserService::new(&mut repo);
    for expected in 1..=50u64 {
        let created = service.create_user(format!("user{}", expected), format!("u{}@x.com", expected));
        assert_eq!(created.id, expected);
    }
    assert_eq!(repo.len(), 50);
    assert_eq!(repo.get_by_id(50).expect("stored under 50").email, "u50@x.com");
    assert!(repo.get_by_id(51).is_none());
    assert!(repo.get_by_id(0).is_none());
}

#[test]
fn service_can_be_reached_through_its_repository_field() {
    let mut repo = UserRepository::new();
    let mut service = UserService::new(&mut repo);
    service.create_user("Ann".to_string(), "ann@x.com".to_string());
    assert_eq!(service.repository.len(), 1);
    assert_eq!(service.repository.get_by_id(1).expect("stored under 1").name, "Ann");
}

#[test]
fn roles_are_three_distinct_tags() {
    let roles = [UserRole::Admin, UserRole::User, UserRole::Guest];
    let mut seen = [false; 3];
    for role in roles {
        match role {
            UserRole::Admin => seen[0] = true,
            UserRole::User => seen[1] = true,
            UserRole::Guest => seen[2] = true,
        }
    }
    assert_eq!(seen, [true, true, true]);
}
