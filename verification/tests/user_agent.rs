use conjure_verification::user_agent::{Agent, UserAgent};

#[test]
fn fmt() {
    let mut agent = UserAgent::new(Agent::new("foobar", "1.2.3"));
    agent.set_node_id("127.0.0.1");
    agent.push_agent(Agent::new("fizzbuzz", "0.0.0-1-g12345"));
    agent.push_agent(Agent::new("btob", "1.0.0-rc1"));
    assert_eq!(
        agent.to_string(),
        "foobar/1.2.3 (nodeId:127.0.0.1) fizzbuzz/0.0.0-1-g12345 btob/1.0.0-rc1"
    );
}

#[test]
fn user_agent_accessors() {
    let mut agent = UserAgent::new(Agent::new("foobar", "1.2.3"));
    assert_eq!(agent.node_id(), None);
    assert_eq!(agent.to_string(), "foobar/1.2.3");
    agent.set_node_id("node-1");
    agent.push_agent(Agent::new("extra", "2.0"));
    assert_eq!(agent.node_id(), Some("node-1"));
    assert_eq!(agent.primary().name(), "foobar");
    assert_eq!(agent.primary().version(), "1.2.3");
    assert_eq!(agent.informational().len(), 1);
    assert_eq!(agent.informational()[0].to_string(), "extra/2.0");
}
