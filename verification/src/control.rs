//! The routing of an inbound message: a message on a topic under the base
//! topic is an order to the relay itself, and any other message goes through
//! the processing pipeline. The router decides; carrying the decision out is
//! left to the caller.

use crate::config::MqttTopics;
use crate::flatten::read_payload;
use crate::payload::{decode_payload, payload_text};
use crate::processor::{processed, Forward, ForwardView, MiniserverDataProcessor};
use crate::text::starts_with;
use vstd::prelude::*;

verus! {

/// How a configuration update is applied.
#[derive(Clone, Copy, Debug, PartialEq, Eq, Structural)]
pub enum ConfigUpdateMode {
    SetFields,
    AddFields,
    RemoveFields,
}

/// What is to be done about an inbound message.
#[derive(Debug)]
pub enum MqttAction {
    /// Nothing: the topic is under the base topic and orders nothing, or it
    /// announces a start of the miniserver while synchronisation is off.
    Nothing,
    /// The miniserver has started: synchronise the whitelist with it.
    ScheduleMiniserverSync,
    /// Start the user interface.
    StartUi,
    /// Stop the user interface.
    StopUi,
    /// Publish the configuration, without its secrets, on the given topic.
    PublishConfig { response_topic: String },
    /// Read the payload as a configuration update, apply it in the given
    /// mode, and restart.
    UpdateConfig { mode: ConfigUpdateMode, payload: String },
    /// Restart the relay.
    Restart,
    /// Forward the given results.
    Forward(Vec<Forward>),
}

/// The view of an [`MqttAction`].
pub enum MqttActionView {
    Nothing,
    ScheduleMiniserverSync,
    StartUi,
    StopUi,
    PublishConfig { response_topic: Seq<char> },
    UpdateConfig { mode: ConfigUpdateMode, payload: Seq<char> },
    Restart,
    Forward(Seq<ForwardView>),
}

impl View for MqttAction {
    type V = MqttActionView;

    open spec fn view(&self) -> MqttActionView {
        match self {
            MqttAction::Nothing => MqttActionView::Nothing,
            MqttAction::ScheduleMiniserverSync => MqttActionView::ScheduleMiniserverSync,
            MqttAction::StartUi => MqttActionView::StartUi,
            MqttAction::StopUi => MqttActionView::StopUi,
            MqttAction::PublishConfig { response_topic } => MqttActionView::PublishConfig {
                response_topic: response_topic@,
            },
            MqttAction::UpdateConfig { mode, payload } => MqttActionView::UpdateConfig {
                mode: *mode,
                payload: payload@,
            },
            MqttAction::Restart => MqttActionView::Restart,
            MqttAction::Forward(forwards) => MqttActionView::Forward(forwards.deep_view()),
        }
    }
}

impl ConfigUpdateMode {
    /// The name of the mode: `set`, `add` or `remove`.
    pub open spec fn name(self) -> Seq<char> {
        match self {
            ConfigUpdateMode::SetFields => "set"@,
            ConfigUpdateMode::AddFields => "add"@,
            ConfigUpdateMode::RemoveFields => "remove"@,
        }
    }

    /// The name of the mode.
    pub fn as_str(&self) -> (name: &'static str)
        ensures
            name@ == self.name(),
    {
        match self {
            ConfigUpdateMode::SetFields => "set",
            ConfigUpdateMode::AddFields => "add",
            ConfigUpdateMode::RemoveFields => "remove",
        }
    }
}

/// Whether a topic under the base topic is a control topic, and which
/// order it stands for. The control topics are tried in a fixed order: the
/// start of the miniserver, the start and the stop of the user interface,
/// the request for the configuration, its three updates, and the restart.
pub open spec fn control_action(
    topics: MqttTopics,
    sync_with_miniserver: bool,
    topic: Seq<char>,
    message: Seq<char>,
) -> MqttActionView {
    if topic == topics.miniserver_startup_topic@ {
        if sync_with_miniserver {
            MqttActionView::ScheduleMiniserverSync
        } else {
            MqttActionView::Nothing
        }
    } else if topic == topics.start_ui_topic@ {
        MqttActionView::StartUi
    } else if topic == topics.stop_ui_topic@ {
        MqttActionView::StopUi
    } else if topic == topics.config_get_topic@ {
        MqttActionView::PublishConfig { response_topic: topics.config_response_topic@ }
    } else if topic == topics.config_set_topic@ {
        MqttActionView::UpdateConfig { mode: ConfigUpdateMode::SetFields, payload: message }
    } else if topic == topics.config_add_topic@ {
        MqttActionView::UpdateConfig { mode: ConfigUpdateMode::AddFields, payload: message }
    } else if topic == topics.config_remove_topic@ {
        MqttActionView::UpdateConfig { mode: ConfigUpdateMode::RemoveFields, payload: message }
    } else if topic == topics.config_update_topic@ || topic == topics.config_restart_topic@ {
        MqttActionView::Restart
    } else {
        MqttActionView::Nothing
    }
}

/// What is to be done about a message, given what reading its payload as
/// JSON gives: a topic that begins with the base topic never reaches the
/// pipeline, and any other topic is processed and what comes out is
/// forwarded.
pub open spec fn routed(
    processor: MiniserverDataProcessor,
    topics: MqttTopics,
    sync_with_miniserver: bool,
    topic: Seq<char>,
    message: Seq<char>,
) -> MqttActionView {
    if processor.config().general.base_topic@.is_prefix_of(topic) {
        control_action(topics, sync_with_miniserver, topic, message)
    } else {
        MqttActionView::Forward(
            processed(
                processor.subscription(),
                processor.blocked(),
                processor.listed(),
                processor.config().processing.expand_json,
                topic,
                message,
                read_payload(message),
            ),
        )
    }
}

/// Whether the routing of a message on `topic` depends on the setting for
/// synchronisation with the miniserver: it does for the topic that announces
/// a start of the miniserver, where that topic is under the base topic.
pub open spec fn sync_setting_matters(
    processor: MiniserverDataProcessor,
    topics: MqttTopics,
    topic: Seq<char>,
) -> bool {
    processor.config().general.base_topic@.is_prefix_of(topic) && topic
        == topics.miniserver_startup_topic@
}

/// Whether the routing of a message on `topic` depends on the setting for
/// synchronisation with the miniserver. A caller that keeps the setting
/// elsewhere need not read it for any other topic.
pub fn needs_sync_setting(
    processor: &MiniserverDataProcessor,
    topics: &MqttTopics,
    topic: &String,
) -> (yes: bool)
    ensures
        yes == sync_setting_matters(*processor, *topics, topic@),
{
    starts_with(topic.as_str(), processor.base_topic()) && *topic
        == topics.miniserver_startup_topic
}

/// Without the setting for synchronisation mattering, the routing is the
/// same with it on and with it off.
pub proof fn routing_ignores_unneeded_sync_setting(
    processor: MiniserverDataProcessor,
    topics: MqttTopics,
    topic: Seq<char>,
    message: Seq<char>,
)
    requires
        !sync_setting_matters(processor, topics, topic),
    ensures
        routed(processor, topics, true, topic, message) == routed(
            processor,
            topics,
            false,
            topic,
            message,
        ),
{
}

/// The order that a message on a topic under the base topic stands for.
pub fn control_order(
    topics: &MqttTopics,
    sync_with_miniserver: bool,
    topic: &String,
    message: String,
) -> (action: MqttAction)
    ensures
        action@ == control_action(*topics, sync_with_miniserver, topic@, message@),
{
    if *topic == topics.miniserver_startup_topic {
        if sync_with_miniserver {
            MqttAction::ScheduleMiniserverSync
        } else {
            MqttAction::Nothing
        }
    } else if *topic == topics.start_ui_topic {
        MqttAction::StartUi
    } else if *topic == topics.stop_ui_topic {
        MqttAction::StopUi
    } else if *topic == topics.config_get_topic {
        MqttAction::PublishConfig { response_topic: topics.config_response_topic.clone() }
    } else if *topic == topics.config_set_topic {
        MqttAction::UpdateConfig { mode: ConfigUpdateMode::SetFields, payload: message }
    } else if *topic == topics.config_add_topic {
        MqttAction::UpdateConfig { mode: ConfigUpdateMode::AddFields, payload: message }
    } else if *topic == topics.config_remove_topic {
        MqttAction::UpdateConfig { mode: ConfigUpdateMode::RemoveFields, payload: message }
    } else if *topic == topics.config_update_topic || *topic == topics.config_restart_topic {
        MqttAction::Restart
    } else {
        MqttAction::Nothing
    }
}

/// Decides what is to be done about a message whose payload is text. A
/// message whose topic begins with the base topic is an order to the relay,
/// or nothing; any other message is processed, and the action holds what is
/// forwarded.
pub fn route_message(
    processor: &MiniserverDataProcessor,
    topics: &MqttTopics,
    sync_with_miniserver: bool,
    topic: String,
    message: String,
) -> (action: MqttAction)
    ensures
        action@ == routed(*processor, *topics, sync_with_miniserver, topic@, message@),
{
    if starts_with(topic.as_str(), processor.base_topic()) {
        control_order(topics, sync_with_miniserver, &topic, message)
    } else {
        MqttAction::Forward(processor.process_data(topic.as_str(), message.as_str()))
    }
}

/// Decides what is to be done about an inbound message, as it comes from
/// the bus: the payload is taken as text, by its placeholder where it is
/// none, and the message is routed.
pub fn handle_mqtt_message(
    processor: &MiniserverDataProcessor,
    topics: &MqttTopics,
    sync_with_miniserver: bool,
    topic: String,
    message_in: Vec<u8>,
) -> (action: MqttAction)
    ensures
        action@ == routed(
            *processor,
            *topics,
            sync_with_miniserver,
            topic@,
            payload_text(message_in@),
        ),
{
    let message = decode_payload(&message_in);
    route_message(processor, topics, sync_with_miniserver, topic, message)
}

} // verus!
