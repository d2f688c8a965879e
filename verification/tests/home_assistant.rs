use desktop_dye::home_assistant::{
    check_response, events_event_path, services_service_path, state_matches,
    states_entity_path, ApiStatus, HomeAssistantConfig, BASE_URL, DEFAULT_PORT, URL_SERVICES,
    URL_STATES,
};

#[test]
fn status_codes() {
    assert_eq!(ApiStatus::from_status_code(200), ApiStatus::Okay);
    assert_eq!(ApiStatus::from_status_code(401), ApiStatus::InvalidPassword);
    for code in [0u16, 199, 201, 400, 403, 404, 500, u16::MAX] {
        assert_eq!(ApiStatus::from_status_code(code), ApiStatus::Unknown);
    }
}

#[test]
fn only_200_is_success() {
    assert_eq!(check_response(200), Ok(()));
    assert_eq!(check_response(201), Err(201));
    assert_eq!(check_response(401), Err(401));
    assert_eq!(check_response(0), Err(0));
}

#[test]
fn config_keeps_what_it_was_made_of() {
    let config = HomeAssistantConfig::new(String::from("http://h:8123"), String::from("secret"));
    assert_eq!(config.base_url(), "http://h:8123");
    assert_eq!(config.token(), "secret");
}

#[test]
fn authorization_header() {
    let config = HomeAssistantConfig::new(String::from("http://h:8123"), String::from("secret"));
    assert_eq!(config.authorization(), "Bearer secret");
    let config = HomeAssistantConfig::new(String::new(), String::new());
    assert_eq!(config.authorization(), "Bearer ");
}

#[test]
fn request_addresses() {
    let config = HomeAssistantConfig::new(String::from("http://h:8123"), String::from("secret"));
    assert_eq!(config.request_uri(BASE_URL), "http://h:8123/api/");
    assert_eq!(config.request_uri(URL_STATES), "http://h:8123/api/states");
    assert_eq!(config.request_uri(URL_SERVICES), "http://h:8123/api/services");
    assert_eq!(
        config.request_uri(&states_entity_path("light.desk")),
        "http://h:8123/api/states/light.desk"
    );
    assert_eq!(DEFAULT_PORT, 8123);
}

#[test]
fn paths() {
    assert_eq!(states_entity_path("input_text.colors"), "/api/states/input_text.colors");
    assert_eq!(states_entity_path(""), "/api/states/");
    assert_eq!(events_event_path("tick"), "/api/events/tick");
    assert_eq!(services_service_path("light", "turn_on"), "/api/services/light/turn_on");
}

#[test]
fn states_are_compared_exactly() {
    assert_eq!(state_matches(&String::from("on"), &String::from("on")), true);
    assert_eq!(state_matches(&String::from("on"), &String::from("On")), false);
    assert_eq!(state_matches(&String::from("on"), &String::from("off")), false);
}
