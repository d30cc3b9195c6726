use petclinic::pets::{types, PetType};
use petclinic::settings::{Database, Redis, Session, Settings};
use petclinic::AppError;

#[test]
fn pet_types_are_numbered() {
    let m = types();
    assert_eq!(m.len(), 4);
    assert_eq!(m.get(&1), Some(&PetType::Cat));
    assert_eq!(m.get(&2), Some(&PetType::Dog));
    assert_eq!(m.get(&3), Some(&PetType::Lizard));
    assert_eq!(m.get(&4), Some(&PetType::Horse));
    assert_eq!(m.get(&5), None);
}

#[test]
fn app_error_keeps_its_message() {
    let e = AppError::new(String::from("cache unreachable"));
    assert_eq!(e.message().as_str(), "cache unreachable");
}

#[test]
fn settings_carry_their_fields() {
    let s = Settings {
        config_name: String::from("development"),
        service_port: 8080,
        database: Database { path: String::from("petclinic.db"), connections: 4 },
        redis: Redis { server: String::from("localhost:6379"), password: None },
        tera_templates: String::from("templates/**/*"),
        session: Session { timeout: 600 },
    };
    assert_eq!(s.session.timeout, 600);
    assert_eq!(s.database.connections, 4);
    assert_eq!(s.redis.password, None);
}
