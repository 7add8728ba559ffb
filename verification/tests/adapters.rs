// The GraphQL scalar binding is presentation glue around `to_string` and
// `from_str` with no logic of its own; there is nothing to check beyond
// the round trips covered by the other test files.

#[test]
fn minimal_id_to_graphql() {}
