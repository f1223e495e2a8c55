use specra::deploy::bearer_header_value;
use specra::deploy::deploy_url;
use specra::deploy::interpret_deploy_response;
use specra::deploy::DeployError;

#[test]
fn url_is_assembled() {
    let url = deploy_url("https://api.example.com", "p-42");
    assert_eq!(url, "https://api.example.com/api/projects/p-42/deploy");
}

#[test]
fn bearer_value_carries_the_token() {
    assert_eq!(bearer_header_value("tok_9f8"), "Bearer tok_9f8");
}

#[test]
fn success_body_yields_the_deployment_id() {
    let r = interpret_deploy_response(200, "{\"deploymentId\":\"dep-7\"}".to_string());
    assert_eq!(r.unwrap().deployment_id, "dep-7");
}

#[test]
fn other_success_statuses_are_accepted() {
    let r = interpret_deploy_response(201, "{\"deploymentId\":\"dep-8\",\"extra\":1}".to_string());
    assert_eq!(r.unwrap().deployment_id, "dep-8");
}

#[test]
fn failure_status_carries_status_and_body() {
    let r = interpret_deploy_response(404, "not found".to_string());
    match r {
        Err(DeployError::HttpFailure { status, body }) => {
            assert_eq!(status, 404);
            assert_eq!(body, "not found");
        }
        _ => panic!("expected an HTTP failure"),
    }
}

#[test]
fn status_just_below_and_above_success_fail() {
    assert!(matches!(
        interpret_deploy_response(199, "{\"deploymentId\":\"d\"}".to_string()),
        Err(DeployError::HttpFailure { status: 199, .. })
    ));
    assert!(matches!(
        interpret_deploy_response(300, "{\"deploymentId\":\"d\"}".to_string()),
        Err(DeployError::HttpFailure { status: 300, .. })
    ));
}

#[test]
fn non_json_success_body_fails_to_decode() {
    let r = interpret_deploy_response(200, "oops".to_string());
    assert!(matches!(r, Err(DeployError::DecodeFailed)));
}

#[test]
fn json_without_the_id_fails_to_decode() {
    let r = interpret_deploy_response(200, "{\"other\":\"x\"}".to_string());
    assert!(matches!(r, Err(DeployError::DecodeFailed)));
}

#[test]
fn non_string_id_fails_to_decode() {
    let r = interpret_deploy_response(200, "{\"deploymentId\":7}".to_string());
    assert!(matches!(r, Err(DeployError::DecodeFailed)));
}
