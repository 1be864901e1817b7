use cosmo_store::aggregate::{make_handler, Aggregate, HandlerError};
use cosmo_store::common::i64_event_version::EventVersion;
use cosmo_store::error::StoreError;
use cosmo_store::in_memory::event_store::EventStoreInMemory;
use cosmo_store::traits::event_store::EventStore;
use cosmo_store::types::event_read_range::EventsReadRange;
use cosmo_store::types::expected_version::ExpectedVersion;
use cosmo_store::types::event_write::EventWrite;
use uuid::Uuid;

#[derive(Clone, Debug)]
pub struct AddTodo {
    pub id: Uuid,
    pub name: String,
    pub is_complete: bool,
}

#[derive(Clone, Debug)]
pub struct RemoveTodo {
    pub id: Uuid,
}

#[derive(Clone, Debug)]
pub struct CompleteTodo {
    pub id: Uuid,
}

#[derive(Clone, Debug)]
pub enum TodoCommand {
    AddTodo(AddTodo),
    RemoveTodo(RemoveTodo),
    ClearAllTodo,
    CompleteTodo(CompleteTodo),
}

#[derive(Clone, Debug)]
pub enum TodoEvent {
    TodoAdded(AddTodo),
    TodoRemoved(RemoveTodo),
    AllTodoCleared,
    TodoCompleted(CompleteTodo),
}

impl From<TodoEvent> for EventWrite<TodoEvent, TodoEvent> {
    fn from(t: TodoEvent) -> Self {
        EventWrite {
            id: Default::default(),
            correlation_id: None,
            causation_id: None,
            name: String::from("todo_event"),
            data: t,
            metadata: None,
        }
    }
}

#[derive(Clone, Debug)]
struct Todo {
    id: Uuid,
    name: String,
    is_completed: bool,
}

#[derive(Clone, Debug)]
struct TodoState {
    todos: Vec<Todo>,
}

impl TodoState {
    pub const fn init() -> TodoState {
        TodoState { todos: vec![] }
    }
}

#[derive(Clone, Debug)]
struct TodoAggregate {
    initial_state: TodoState,
}

impl Aggregate<TodoState, TodoCommand, TodoEvent> for TodoAggregate {
    type Rejection = String;

    fn init(&self) -> TodoState {
        self.clone().initial_state
    }

    fn apply(&self, state: TodoState, event: &TodoEvent) -> TodoState {
        match event {
            TodoEvent::TodoAdded(t) => {
                let new_state = Todo {
                    id: t.id,
                    name: t.name.clone(),
                    is_completed: t.is_complete,
                };
                TodoState {
                    todos: state
                        .clone()
                        .todos
                        .into_iter()
                        .chain(vec![new_state])
                        .collect(),
                }
            }
            TodoEvent::TodoRemoved(t) => {
                let filtered: Vec<Todo> = state
                    .clone()
                    .todos
                    .into_iter()
                    .filter(|p| p.id != t.id)
                    .collect();
                TodoState { todos: filtered }
            }
            TodoEvent::AllTodoCleared => TodoState { todos: vec![] },
            TodoEvent::TodoCompleted(t) => {
                let find_todo: Todo = state.todos.iter().find(|p| p.id == t.id).unwrap().clone();
                let filtered: Vec<Todo> = state
                    .clone()
                    .todos
                    .into_iter()
                    .filter(|p| p.id != t.id)
                    .collect();
                TodoState {
                    todos: filtered
                        .into_iter()
                        .chain(vec![Todo {
                            is_completed: true,
                            ..find_todo
                        }])
                        .collect(),
                }
            }
        }
    }

    fn execute(&self, state: &TodoState, command: &TodoCommand) -> Result<Vec<TodoEvent>, String> {
        let res = match command {
            TodoCommand::AddTodo(t) => vec![TodoEvent::TodoAdded(t.clone())],
            TodoCommand::RemoveTodo(t) => vec![TodoEvent::TodoRemoved(t.clone())],
            TodoCommand::ClearAllTodo => vec![TodoEvent::AllTodoCleared],
            TodoCommand::CompleteTodo(t) => {
                if !state.todos.iter().any(|p| p.id == t.id) {
                    return Err(String::from("no such todo"));
                }
                vec![TodoEvent::TodoCompleted(t.clone())]
            }
        };

        Ok(res)
    }
}

const TODO_AGGREGATE: TodoAggregate = TodoAggregate {
    initial_state: TodoState::init(),
};

fn get_stream_id() -> String {
    format!("TestStream_{}", Uuid::new_v4().to_string())
}

#[test]
fn persistent_aggregate_tests_add_state() {
    let mut store: EventStoreInMemory<TodoEvent, TodoEvent> = EventStoreInMemory::new();
    let stream_id = get_stream_id();

    let res = make_handler(
        &TODO_AGGREGATE,
        &mut store,
        &TodoCommand::AddTodo(AddTodo {
            id: Default::default(),
            name: "Some Task".to_string(),
            is_complete: false,
        }),
        &stream_id,
        &EventsReadRange::AllEvents,
        &ExpectedVersion::Any,
    )
    .unwrap();

    assert_eq!(res.len(), 1);

    let state = res
        .iter()
        .fold(TODO_AGGREGATE.init(), |a, b| TODO_AGGREGATE.apply(a, &b.data));

    for r in &res {
        println!("{:?} - {:?}", r.stream_id, r.data);
    }
    assert_eq!(state.todos.len(), 1);
    assert_eq!(res[0].version.0, 1);
    assert_eq!(res[0].stream_id, stream_id);
    assert_eq!(res[0].name, "todo_event");
    assert_eq!(store.get_stream(&stream_id).unwrap().last_version.0, 1);
}

#[test]
fn handler_rebuilds_state_from_the_history() {
    let mut store: EventStoreInMemory<TodoEvent, TodoEvent> = EventStoreInMemory::new();
    let stream_id = get_stream_id();
    let id = Uuid::new_v4();
    make_handler(
        &TODO_AGGREGATE,
        &mut store,
        &TodoCommand::AddTodo(AddTodo {
            id,
            name: "Some Task".to_string(),
            is_complete: false,
        }),
        &stream_id,
        &EventsReadRange::AllEvents,
        &ExpectedVersion::NoStream,
    )
    .unwrap();
    // The second command goes through only where the first event was applied.
    let res = make_handler(
        &TODO_AGGREGATE,
        &mut store,
        &TodoCommand::CompleteTodo(CompleteTodo { id }),
        &stream_id,
        &EventsReadRange::AllEvents,
        &ExpectedVersion::Exact(EventVersion::new(2)),
    )
    .unwrap();
    assert_eq!(res.len(), 1);
    assert_eq!(res[0].version.0, 2);
    let events = store.get_events(&stream_id, &EventsReadRange::AllEvents).unwrap();
    let state = events
        .iter()
        .fold(TODO_AGGREGATE.init(), |a, b| TODO_AGGREGATE.apply(a, &b.data));
    assert_eq!(state.todos.len(), 1);
    assert!(state.todos[0].is_completed);
    assert_eq!(state.todos[0].name, "Some Task");
}

#[test]
fn handler_leaves_the_store_alone_where_the_aggregate_rejects() {
    let mut store: EventStoreInMemory<TodoEvent, TodoEvent> = EventStoreInMemory::new();
    let stream_id = get_stream_id();
    let res = make_handler(
        &TODO_AGGREGATE,
        &mut store,
        &TodoCommand::CompleteTodo(CompleteTodo { id: Uuid::new_v4() }),
        &stream_id,
        &EventsReadRange::AllEvents,
        &ExpectedVersion::Any,
    );
    assert_eq!(res.unwrap_err(), HandlerError::Rejected(String::from("no such todo")));
    assert!(store.get_stream(&stream_id).is_err());
    assert_eq!(store.get_events(&stream_id, &EventsReadRange::AllEvents).unwrap().len(), 0);
}

#[test]
fn handler_hands_on_the_refusal_of_the_store() {
    let mut store: EventStoreInMemory<TodoEvent, TodoEvent> = EventStoreInMemory::new();
    let stream_id = get_stream_id();
    let add = TodoCommand::AddTodo(AddTodo {
        id: Uuid::new_v4(),
        name: "Some Task".to_string(),
        is_complete: false,
    });
    make_handler(
        &TODO_AGGREGATE,
        &mut store,
        &add,
        &stream_id,
        &EventsReadRange::AllEvents,
        &ExpectedVersion::Any,
    )
    .unwrap();
    let res = make_handler(
        &TODO_AGGREGATE,
        &mut store,
        &add,
        &stream_id,
        &EventsReadRange::AllEvents,
        &ExpectedVersion::NoStream,
    );
    assert_eq!(
        res.unwrap_err(),
        HandlerError::Store(StoreError::StreamExists { existing: 1 })
    );
    assert_eq!(store.get_stream(&stream_id).unwrap().last_version.0, 1);
}
