//! JSON bodies of the requests that start jobs.

use vstd::prelude::*;
use crate::json::{json_list, json_member, json_object, json_quoted, list, member, object, quote};
use crate::text::{decimal, u64_to_decimal, views};
use crate::vars::{Entry, VarMap};

verus! {

/// The GraphQL mutation that retries a job with new variables and inputs.
pub const RETRY_JOB_QUERY: &'static str = "mutation retryJobWithVariables($id: CiProcessableID!, $variables: [CiVariableInput!], $inputs: [CiInputsInput!]) {\n  jobRetry(input: {id: $id, variables: $variables, inputs: $inputs}) {\n    job {\n      ...BaseCiJob\n      webPath\n      __typename\n    }\n    errors\n    __typename\n  }\n}\n\nfragment BaseCiJob on CiJob {\n  id\n  manualVariables {\n    nodes {\n      ...ManualCiVariable\n      __typename\n    }\n    __typename\n  }\n  __typename\n}\n\nfragment ManualCiVariable on CiVariable {\n  id\n  key\n  value\n  __typename\n}";

/// `{"<name_key>":"<name>","value":"<value>"}`.
pub open spec fn pair_object(name_key: Seq<char>, e: Entry) -> Seq<char> {
    json_object(seq![json_member(name_key, json_quoted(e.0)), json_member("value"@, json_quoted(e.1))])
}

/// `"<name>":"<value>"`, one member of a JSON object of variables.
pub open spec fn value_member(e: Entry) -> Seq<char> {
    json_member(e.0, json_quoted(e.1))
}

/// Each variable as `{"key":..,"value":..}`.
pub open spec fn key_value_objects(es: Seq<Entry>) -> Seq<Seq<char>> {
    es.map_values(|e: Entry| pair_object("key"@, e))
}

/// Each input as `{"name":..,"value":..}`.
pub open spec fn name_value_objects(es: Seq<Entry>) -> Seq<Seq<char>> {
    es.map_values(|e: Entry| pair_object("name"@, e))
}

/// The variables as the members of one JSON object.
pub open spec fn value_members(es: Seq<Entry>) -> Seq<Seq<char>> {
    es.map_values(|e: Entry| value_member(e))
}

/// A member that is left out when its collection is empty.
pub open spec fn member_unless_empty(count: nat, name: Seq<char>, value: Seq<char>) -> Seq<Seq<char>> {
    if count > 0 {
        seq![json_member(name, value)]
    } else {
        Seq::empty()
    }
}

/// Body of `POST /jobs/:id/play`: the variables as `job_variables_attributes` and
/// the inputs as the object `job_inputs`, each left out when empty.
pub open spec fn play_body_spec(variables: Seq<Entry>, inputs: Seq<Entry>) -> Seq<char> {
    json_object(
        member_unless_empty(
            variables.len(),
            "job_variables_attributes"@,
            json_list(key_value_objects(variables)),
        ) + member_unless_empty(inputs.len(), "job_inputs"@, json_object(value_members(inputs))),
    )
}

/// Body of `POST /jobs/:id/retry` with inputs: the object `inputs`, left out when empty.
pub open spec fn retry_body_spec(inputs: Seq<Entry>) -> Seq<char> {
    json_object(member_unless_empty(inputs.len(), "inputs"@, json_object(value_members(inputs))))
}

/// The GraphQL global ID of a CI job.
pub open spec fn job_gid(job_id: u64) -> Seq<char> {
    "gid://gitlab/Ci::Build/"@ + decimal(job_id as nat)
}

/// The GraphQL request that retries job `job_id` with variables and inputs;
/// the inputs are left out when there is none.
pub open spec fn retry_request_spec(job_id: u64, variables: Seq<Entry>, inputs: Seq<Entry>) -> Seq<char> {
    json_object(
        seq![
            json_member("operationName"@, json_quoted("retryJobWithVariables"@)),
            json_member("query"@, json_quoted(RETRY_JOB_QUERY@)),
            json_member(
                "variables"@,
                json_object(
                    seq![
                        json_member("id"@, json_quoted(job_gid(job_id))),
                        json_member("variables"@, json_list(key_value_objects(variables))),
                    ] + member_unless_empty(
                        inputs.len(),
                        "inputs"@,
                        json_list(name_value_objects(inputs)),
                    ),
                ),
            ),
        ],
    )
}

fn pair_object_exec(name_key: &str, key: &str, value: &str) -> (r: String)
    ensures
        r@ == pair_object(name_key@, (key@, value@)),
{
    let first = member(name_key, quote(key).as_str());
    let second = member("value", quote(value).as_str());
    let members = vec![first, second];
    assert(views(members@) =~= seq![first@, second@]);
    object(&members)
}

/// Each variable as `{"<name_key>":..,"value":..}`, in order.
fn pair_objects(name_key: &str, vars: &VarMap) -> (r: Vec<String>)
    ensures
        views(r@) == vars@.map_values(|e: Entry| pair_object(name_key@, e)),
{
    let mut r: Vec<String> = Vec::new();
    let mut i: usize = 0;
    while i < vars.len()
        invariant
            i <= vars@.len(),
            views(r@) == vars@.take(i as int).map_values(|e: Entry| pair_object(name_key@, e)),
        decreases vars@.len() - i,
    {
        let e = vars.get(i);
        let ghost old_r = r@;
        let item = pair_object_exec(name_key, e.key.as_str(), e.value.as_str());
        r.push(item);
        assert(vars@.take(i + 1) =~= vars@.take(i as int).push(vars@[i as int]));
        assert(views(r@) =~= views(old_r).push(item@));
        assert(views(r@) =~= vars@.take(i + 1).map_values(|e: Entry| pair_object(name_key@, e)));
        i = i + 1;
    }
    assert(vars@.take(vars@.len() as int) =~= vars@);
    r
}

/// Each variable as a member `"<name>":"<value>"`, in order.
fn value_members_exec(vars: &VarMap) -> (r: Vec<String>)
    ensures
        views(r@) == value_members(vars@),
{
    let mut r: Vec<String> = Vec::new();
    let mut i: usize = 0;
    while i < vars.len()
        invariant
            i <= vars@.len(),
            views(r@) == value_members(vars@.take(i as int)),
        decreases vars@.len() - i,
    {
        let e = vars.get(i);
        let ghost old_r = r@;
        let item = member(e.key.as_str(), quote(e.value.as_str()).as_str());
        r.push(item);
        assert(vars@.take(i + 1) =~= vars@.take(i as int).push(vars@[i as int]));
        assert(views(r@) =~= views(old_r).push(item@));
        assert(views(r@) =~= value_members(vars@.take(i + 1)));
        i = i + 1;
    }
    assert(vars@.take(vars@.len() as int) =~= vars@);
    r
}

/// Builds the body of a request that plays a manual job.
pub fn build_play_body(variables: &VarMap, inputs: &VarMap) -> (body: String)
    ensures
        body@ == play_body_spec(variables@, inputs@),
{
    let mut members: Vec<String> = Vec::new();
    if !variables.is_empty() {
        let attrs = list(&pair_objects("key", variables));
        members.push(member("job_variables_attributes", attrs.as_str()));
    }
    let ghost first = views(members@);
    if !inputs.is_empty() {
        let values = object(&value_members_exec(inputs));
        members.push(member("job_inputs", values.as_str()));
    }
    assert(views(members@) =~= member_unless_empty(
        variables@.len(),
        "job_variables_attributes"@,
        json_list(key_value_objects(variables@)),
    ) + member_unless_empty(inputs@.len(), "job_inputs"@, json_object(value_members(inputs@))));
    object(&members)
}

/// Builds the body of a request that retries a job with inputs.
pub fn build_retry_body(inputs: &VarMap) -> (body: String)
    ensures
        body@ == retry_body_spec(inputs@),
{
    let mut members: Vec<String> = Vec::new();
    if !inputs.is_empty() {
        let values = object(&value_members_exec(inputs));
        members.push(member("inputs", values.as_str()));
    }
    assert(views(members@) =~= member_unless_empty(
        inputs@.len(),
        "inputs"@,
        json_object(value_members(inputs@)),
    ));
    object(&members)
}

/// Writes the GraphQL global ID of a CI job.
pub fn job_gid_exec(job_id: u64) -> (gid: String)
    ensures
        gid@ == job_gid(job_id),
{
    let mut gid = String::from_str("gid://gitlab/Ci::Build/");
    gid.append(u64_to_decimal(job_id).as_str());
    gid
}

/// Builds the GraphQL request that retries a job with variables and inputs.
pub fn build_retry_request(job_id: u64, variables: &VarMap, inputs: &VarMap) -> (body: String)
    ensures
        body@ == retry_request_spec(job_id, variables@, inputs@),
{
    let mut inner: Vec<String> = Vec::new();
    inner.push(member("id", quote(job_gid_exec(job_id).as_str()).as_str()));
    inner.push(member("variables", list(&pair_objects("key", variables)).as_str()));
    if !inputs.is_empty() {
        inner.push(member("inputs", list(&pair_objects("name", inputs)).as_str()));
    }
    assert(views(inner@) =~= seq![
        json_member("id"@, json_quoted(job_gid(job_id))),
        json_member("variables"@, json_list(key_value_objects(variables@))),
    ] + member_unless_empty(inputs@.len(), "inputs"@, json_list(name_value_objects(inputs@))));
    let variables_object = object(&inner);
    let mut outer: Vec<String> = Vec::new();
    outer.push(member("operationName", quote("retryJobWithVariables").as_str()));
    outer.push(member("query", quote(RETRY_JOB_QUERY).as_str()));
    outer.push(member("variables", variables_object.as_str()));
    assert(views(outer@) =~= seq![
        json_member("operationName"@, json_quoted("retryJobWithVariables"@)),
        json_member("query"@, json_quoted(RETRY_JOB_QUERY@)),
        json_member("variables"@, variables_object@),
    ]);
    object(&outer)
}

/// The play body carries every variable and every input: `job_variables_attributes`
/// lists one `{"key":..,"value":..}` object per variable, in order, and
/// `job_inputs` has one member `"name":"value"` per input, in order; each is left
/// out only when there is none.
pub proof fn lemma_play_body_carries_all(variables: Seq<Entry>, inputs: Seq<Entry>)
    ensures
        play_body_spec(variables, inputs) == json_object(
            (if variables.len() > 0 {
                seq![
                    json_member(
                        "job_variables_attributes"@,
                        json_list(
                            Seq::new(
                                variables.len(),
                                |i: int|
                                    json_object(
                                        seq![
                                            json_member("key"@, json_quoted(variables[i].0)),
                                            json_member("value"@, json_quoted(variables[i].1)),
                                        ],
                                    ),
                            ),
                        ),
                    ),
                ]
            } else {
                Seq::empty()
            }) + (if inputs.len() > 0 {
                seq![
                    json_member(
                        "job_inputs"@,
                        json_object(
                            Seq::new(inputs.len(), |i: int| json_member(inputs[i].0, json_quoted(inputs[i].1))),
                        ),
                    ),
                ]
            } else {
                Seq::empty()
            }),
        ),
{
    assert(key_value_objects(variables) =~= Seq::new(
        variables.len(),
        |i: int|
            json_object(
                seq![
                    json_member("key"@, json_quoted(variables[i].0)),
                    json_member("value"@, json_quoted(variables[i].1)),
                ],
            ),
    ));
    assert(value_members(inputs) =~= Seq::new(
        inputs.len(),
        |i: int| json_member(inputs[i].0, json_quoted(inputs[i].1)),
    ));
}

/// The body of a REST retry carries every input: `inputs` has one member
/// `"name":"value"` per input, in order, and is left out only when there is none.
pub proof fn lemma_retry_body_carries_all(inputs: Seq<Entry>)
    ensures
        retry_body_spec(inputs) == json_object(
            if inputs.len() > 0 {
                seq![
                    json_member(
                        "inputs"@,
                        json_object(
                            Seq::new(inputs.len(), |i: int| json_member(inputs[i].0, json_quoted(inputs[i].1))),
                        ),
                    ),
                ]
            } else {
                Seq::empty()
            },
        ),
{
    assert(value_members(inputs) =~= Seq::new(
        inputs.len(),
        |i: int| json_member(inputs[i].0, json_quoted(inputs[i].1)),
    ));
}

/// The GraphQL retry request names the job by its global ID and carries every
/// variable and every input: `variables.variables` lists one
/// `{"key":..,"value":..}` object per variable, in order (as many as there are
/// variables), and `variables.inputs` one `{"name":..,"value":..}` object per
/// input, left out only when there is none.
pub proof fn lemma_retry_request_carries_all(job_id: u64, variables: Seq<Entry>, inputs: Seq<Entry>)
    ensures
        retry_request_spec(job_id, variables, inputs) == json_object(
            seq![
                json_member("operationName"@, json_quoted("retryJobWithVariables"@)),
                json_member("query"@, json_quoted(RETRY_JOB_QUERY@)),
                json_member(
                    "variables"@,
                    json_object(
                        seq![
                            json_member(
                                "id"@,
                                json_quoted("gid://gitlab/Ci::Build/"@ + decimal(job_id as nat)),
                            ),
                            json_member(
                                "variables"@,
                                json_list(
                                    Seq::new(
                                        variables.len(),
                                        |i: int|
                                            json_object(
                                                seq![
                                                    json_member("key"@, json_quoted(variables[i].0)),
                                                    json_member("value"@, json_quoted(variables[i].1)),
                                                ],
                                            ),
                                    ),
                                ),
                            ),
                        ] + (if inputs.len() > 0 {
                            seq![
                                json_member(
                                    "inputs"@,
                                    json_list(
                                        Seq::new(
                                            inputs.len(),
                                            |i: int|
                                                json_object(
                                                    seq![
                                                        json_member("name"@, json_quoted(inputs[i].0)),
                                                        json_member("value"@, json_quoted(inputs[i].1)),
                                                    ],
                                                ),
                                        ),
                                    ),
                                ),
                            ]
                        } else {
                            Seq::empty()
                        }),
                    ),
                ),
            ],
        ),
{
    assert(key_value_objects(variables) =~= Seq::new(
        variables.len(),
        |i: int|
            json_object(
                seq![
                    json_member("key"@, json_quoted(variables[i].0)),
                    json_member("value"@, json_quoted(variables[i].1)),
                ],
            ),
    ));
    assert(name_value_objects(inputs) =~= Seq::new(
        inputs.len(),
        |i: int|
            json_object(
                seq![
                    json_member("name"@, json_quoted(inputs[i].0)),
                    json_member("value"@, json_quoted(inputs[i].1)),
                ],
            ),
    ));
}

} // verus!
