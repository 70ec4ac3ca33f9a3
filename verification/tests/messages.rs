use mycelium_computing::messages::{EmptyMessage, ProvidedFunctionality, ProviderExchange};

fn functionality(name: &str, input: &str, output: &str) -> ProvidedFunctionality {
    ProvidedFunctionality {
        name: name.to_string(),
        input_type: input.to_string(),
        output_type: output.to_string(),
    }
}

#[test]
fn descriptors_are_equal_by_name_and_types() {
    let multiply = functionality("multiply", "MathRequest", "MathResponse");
    assert!(multiply.same_as(&functionality("multiply", "MathRequest", "MathResponse")));
    assert!(!multiply.same_as(&functionality("divide", "MathRequest", "MathResponse")));
    assert!(!multiply.same_as(&functionality("multiply", "Other", "MathResponse")));
    assert!(!multiply.same_as(&functionality("multiply", "MathRequest", "Other")));
}

#[test]
fn empty_message_defaults_to_zero_marker() {
    assert_eq!(EmptyMessage::default()._marker, 0);
}

#[test]
fn reply_echoes_the_request_id() {
    let request = ProviderExchange::new(41, (6, 7));
    let reply = request.reply(42);
    assert_eq!(reply.id, 41);
    assert_eq!(reply.payload, 42);
}

#[test]
fn clones_keep_every_field() {
    let multiply = functionality("multiply", "MathRequest", "MathResponse");
    let copy = multiply.clone();
    assert!(copy.same_as(&multiply));
    assert_eq!(copy.name, "multiply");
    assert_eq!(copy.input_type, "MathRequest");
    assert_eq!(copy.output_type, "MathResponse");
}

#[test]
fn exchange_keeps_id_and_payload() {
    let exchange = ProviderExchange::new(u32::MAX, "payload".to_string());
    assert_eq!(exchange.id, u32::MAX);
    assert_eq!(exchange.payload, "payload");
}
