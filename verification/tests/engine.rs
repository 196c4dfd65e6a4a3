use severn::agents::{Agent, PersonaAgent};
use severn::data_sources::{require_present, require_search_hit, NoDataSource, StaticDataSource};
use severn::errors::Error;
use severn::models::{compose_prompt, extract_reply, EchoModel, FailingEchoModel, PromptModel};
use severn::data_sources::DataSource;
use severn::pipeline::Pipeline;

fn writer() -> PersonaAgent {
    PersonaAgent::new("writer".to_string(), "write concisely".to_string())
}

fn critic() -> PersonaAgent {
    PersonaAgent::new("critic".to_string(), "judge sternly".to_string())
}

fn editor() -> PersonaAgent {
    PersonaAgent::new("editor".to_string(), "edit gently".to_string())
}

#[test]
fn persona_agent_reports_its_identity() {
    let a = writer();
    assert_eq!(a.name(), "writer");
    assert_eq!(a.system_message(), "write concisely");
}

#[test]
fn two_agent_pipeline_threads_context() {
    let a = writer();
    let b = critic();
    let pipeline = Pipeline::new().add_agent(&a).add_agent(&b);
    let mut model = EchoModel::new();
    let result = pipeline.run_pipeline("summarize X".to_string(), &mut model);
    assert_eq!(result, Ok("critic:writer:".to_string()));
    assert_eq!(model.calls, 2);
}

#[test]
fn three_agent_pipeline_reads_retrieved_context() {
    let a = writer();
    let b = critic();
    let c = editor();
    let pipeline = Pipeline::new()
        .add_agent(&a)
        .add_agent(&b)
        .add_agent(&c)
        .add_data_source(StaticDataSource::new("ground".to_string()));
    let mut model = EchoModel::new();
    let result = pipeline.run_pipeline("go".to_string(), &mut model);
    assert_eq!(result, Ok("editor:critic:writer:ground".to_string()));
    assert_eq!(model.calls, 3);
}

#[test]
fn empty_pipeline_fails_without_source() {
    let pipeline = Pipeline::new();
    let mut model = EchoModel::new();
    let result = pipeline.run_pipeline("go".to_string(), &mut model);
    assert_eq!(result, Err(Error::NoAgentsExist));
    assert_eq!(model.calls, 0);
}

#[test]
fn empty_pipeline_fails_with_source_registered() {
    let pipeline = Pipeline::new().add_data_source(StaticDataSource::new("data".to_string()));
    let mut model = EchoModel::new();
    let result = pipeline.run_pipeline("go".to_string(), &mut model);
    assert_eq!(result, Err(Error::NoAgentsExist));
    assert_eq!(model.calls, 0);
}

#[test]
fn empty_pipeline_fails_with_failing_source_registered() {
    let pipeline = Pipeline::new().add_data_source(NoDataSource::new());
    let mut model = EchoModel::new();
    let result = pipeline.run_pipeline("go".to_string(), &mut model);
    assert_eq!(result, Err(Error::NoAgentsExist));
    assert_eq!(model.calls, 0);
}

#[test]
fn explicit_source_overrides_registered_one() {
    let a = writer();
    let pipeline = Pipeline::new().add_agent(&a).add_data_source(StaticDataSource::new(
        "registered".to_string(),
    ));
    let mut model = EchoModel::new();
    let result = pipeline.run_pipeline_with_initial_data(
        "go".to_string(),
        &mut model,
        StaticDataSource::new("explicit".to_string()),
    );
    assert_eq!(result, Ok("writer:explicit".to_string()));
    assert_eq!(model.calls, 1);
}

#[test]
fn no_match_retrieval_fails_before_any_agent() {
    let a = writer();
    let b = critic();
    let pipeline = Pipeline::new().add_agent(&a).add_agent(&b).add_data_source(
        NoDataSource::new(),
    );
    let mut model = EchoModel::new();
    let result = pipeline.run_pipeline("go".to_string(), &mut model);
    assert_eq!(result, Err(Error::DataSourceNoMatch));
    assert_eq!(model.calls, 0);
}

#[test]
fn no_match_explicit_retrieval_fails_before_any_agent() {
    let a = writer();
    let pipeline = Pipeline::new().add_agent(&a);
    let mut model = EchoModel::new();
    let result =
        pipeline.run_pipeline_with_initial_data("go".to_string(), &mut model, NoDataSource::new());
    assert_eq!(result, Err(Error::DataSourceNoMatch));
    assert_eq!(model.calls, 0);
}

#[test]
fn backend_failure_stops_the_run() {
    let a = writer();
    let b = critic();
    let c = editor();
    let pipeline = Pipeline::new().add_agent(&a).add_agent(&b).add_agent(&c);
    let mut model = FailingEchoModel::new(1);
    let result = pipeline.run_pipeline("go".to_string(), &mut model);
    assert_eq!(result, Err(Error::BackendError("backend unavailable".to_string())));
    assert_eq!(model.calls, 2);
}

#[test]
fn out_of_range_index_fails_without_invoking_backend() {
    let a = writer();
    let pipeline = Pipeline::new().add_agent(&a);
    let mut model = EchoModel::new();
    let result = pipeline.run_agent_at_index_with_initial_data(
        "go".to_string(),
        1,
        &mut model,
        StaticDataSource::new("data".to_string()),
    );
    assert_eq!(result, Err(Error::NoAgentsExist));
    assert_eq!(model.calls, 0);
}

#[test]
fn index_run_invokes_exactly_one_agent() {
    let a = writer();
    let b = critic();
    let pipeline = Pipeline::new().add_agent(&a).add_agent(&b);
    let mut model = EchoModel::new();
    let result = pipeline.run_agent_at_index_with_initial_data(
        "go".to_string(),
        1,
        &mut model,
        StaticDataSource::new("data".to_string()),
    );
    assert_eq!(result, Ok("critic:data".to_string()));
    assert_eq!(model.calls, 1);
}

#[test]
fn index_run_without_source_reads_empty_context() {
    let a = writer();
    let pipeline = Pipeline::new().add_agent(&a);
    let mut model = EchoModel::new();
    let result = pipeline.run_agent_at_index("go".to_string(), 0, &mut model);
    assert_eq!(result, Ok("writer:".to_string()));
    assert_eq!(model.calls, 1);
}

#[test]
fn unknown_name_fails_without_invoking_backend() {
    let a = writer();
    let pipeline = Pipeline::new().add_agent(&a);
    let mut model = EchoModel::new();
    let result = pipeline.run_agent_by_name_with_initial_data(
        "go".to_string(),
        "nobody",
        &mut model,
        StaticDataSource::new("data".to_string()),
    );
    assert_eq!(result, Err(Error::NoAgentsExist));
    assert_eq!(model.calls, 0);
}

#[test]
fn duplicate_names_invoke_exactly_one_agent() {
    let first = PersonaAgent::new("dup".to_string(), "first".to_string());
    let second = PersonaAgent::new("dup".to_string(), "second".to_string());
    let pipeline = Pipeline::new().add_agent(&first).add_agent(&second);
    let mut model = EchoModel::new();
    let result = pipeline.run_agent_by_name_with_initial_data(
        "go".to_string(),
        "dup",
        &mut model,
        StaticDataSource::new("seed".to_string()),
    );
    assert_eq!(result, Ok("dup:seed".to_string()));
    assert_eq!(model.calls, 1);
}

#[test]
fn name_run_with_registered_source() {
    let a = writer();
    let b = critic();
    let pipeline = Pipeline::new().add_agent(&a).add_agent(&b).add_data_source(
        StaticDataSource::new("seed".to_string()),
    );
    let mut model = EchoModel::new();
    let result = pipeline.run_agent_by_name("go".to_string(), "critic", &mut model);
    assert_eq!(result, Ok("critic:seed".to_string()));
    assert_eq!(model.calls, 1);
}

#[test]
fn remove_agent_at_index_keeps_the_order() {
    let a = writer();
    let b = critic();
    let c = editor();
    let pipeline = Pipeline::new().add_agent(&a).add_agent(&b).add_agent(&c);
    let pipeline = pipeline.remove_agent_at_index(1);
    assert_eq!(pipeline.num_agents(), 2);
    let mut model = EchoModel::new();
    let result = pipeline.run_pipeline("go".to_string(), &mut model);
    assert_eq!(result, Ok("editor:writer:".to_string()));
}

#[test]
fn remove_agent_by_name_drops_every_carrier() {
    let a = PersonaAgent::new("dup".to_string(), "first".to_string());
    let b = critic();
    let c = PersonaAgent::new("dup".to_string(), "third".to_string());
    let pipeline = Pipeline::new().add_agent(&a).add_agent(&b).add_agent(&c);
    let pipeline = pipeline.remove_agent_by_name("dup".to_string());
    assert_eq!(pipeline.num_agents(), 1);
    let mut model = EchoModel::new();
    let result = pipeline.run_pipeline("go".to_string(), &mut model);
    assert_eq!(result, Ok("critic:".to_string()));
}

#[test]
fn default_pipeline_is_empty() {
    let pipeline = Pipeline::default();
    assert_eq!(pipeline.num_agents(), 0);
    let mut model = EchoModel::new();
    assert_eq!(pipeline.run_pipeline("go".to_string(), &mut model), Err(Error::NoAgentsExist));
}

#[test]
fn static_source_retrieves_its_data() {
    let source = StaticDataSource::new("ground truth".to_string());
    assert_eq!(source.retrieve_data(), Ok("ground truth".to_string()));
    assert_eq!(NoDataSource::new().retrieve_data(), Err(Error::DataSourceNoMatch));
}

#[test]
fn compose_prompt_encodes_the_context() {
    let composed = compose_prompt("summarize X", &"the data".to_string());
    assert_eq!(
        composed,
        Ok(
            "summarize X\n\n            Provided context:\n            \"the data\"\n            "
                .to_string(),
        )
    );
}

#[test]
fn extract_reply_takes_the_first_choice() {
    assert_eq!(
        extract_reply(vec![Some("hello".to_string()), Some("other".to_string())]),
        Ok("hello".to_string())
    );
}

#[test]
fn extract_reply_rejects_empty_choices() {
    assert_eq!(extract_reply(vec![]), Err(Error::OptionIsNone));
}

#[test]
fn extract_reply_rejects_missing_text() {
    assert_eq!(
        extract_reply(vec![None, Some("later".to_string())]),
        Err(Error::OptionIsNone)
    );
}

#[test]
fn search_hits_and_fields_are_demanded() {
    assert_eq!(require_search_hit(Some(7u64)), Ok(7u64));
    assert_eq!(require_search_hit::<u64>(None), Err(Error::DataSourceNoMatch));
    assert_eq!(require_present(Some("doc".to_string())), Ok("doc".to_string()));
    assert_eq!(require_present::<String>(None), Err(Error::OptionIsNone));
}

#[test]
fn serialization_error_carries_its_message() {
    let e = Error::SerializationError("bad value".to_string());
    assert_eq!(e, Error::SerializationError("bad value".to_string()));
    assert!(matches!(e, Error::SerializationError(_)));
}

#[test]
fn failing_model_echoes_until_its_first_failure() {
    let agent = writer();
    let mut model = FailingEchoModel::new(2);
    assert_eq!(
        model.prompt("go", "ctx".to_string(), &agent),
        Ok("writer:ctx".to_string())
    );
    assert_eq!(
        model.prompt("go", "ctx".to_string(), &agent),
        Ok("writer:ctx".to_string())
    );
    assert_eq!(
        model.prompt("go", "ctx".to_string(), &agent),
        Err(Error::BackendError("backend unavailable".to_string()))
    );
    assert_eq!(model.calls, 3);
}

#[test]
fn error_messages_word_each_kind() {
    assert_eq!(Error::NoAgentsExist.message(), "There's no agents in the pipeline!");
    assert_eq!(Error::DataSourceNoMatch.message(), "Searched data source but no results");
    assert_eq!(Error::OptionIsNone.message(), "Option expected to be Some but is None");
    assert_eq!(Error::BackendError("timeout".to_string()).message(), "LLM error: timeout");
    assert_eq!(
        Error::SerializationError("bad value".to_string()).message(),
        "serde_json error: bad value"
    );
}

#[test]
fn stepwise_run_matches_the_engine() {
    let a = writer();
    let b = critic();
    let pipeline = Pipeline::new().add_agent(&a).add_agent(&b);
    let mut model = EchoModel::new();
    let mut step = pipeline.start_run(String::new()).unwrap();
    let result = loop {
        match step {
            severn::pipeline::RunStep::Finished { result } => break result,
            severn::pipeline::RunStep::Pending { index, context } => {
                let reply = model.prompt("go", context, pipeline.agent_at(index));
                step = pipeline.advance_run(index, reply).unwrap();
            }
        }
    };
    assert_eq!(result, "critic:writer:");
    assert_eq!(model.calls, 2);

    let empty = Pipeline::new();
    assert!(matches!(empty.start_run(String::new()), Err(Error::NoAgentsExist)));
}
