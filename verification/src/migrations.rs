use vstd::prelude::*;

verus! {

/// One step of the database schema's history: its version, what it does, and the file
/// under `migrations/` that holds its SQL. Every step migrates up.
#[derive(Debug, Clone, Copy)]
pub struct MigrationStep {
    pub version: i64,
    pub description: &'static str,
    pub sql_file: &'static str,
}

/// The schema's history, step by step: what each step does and its SQL file.
pub open spec fn migration_history() -> Seq<(Seq<char>, Seq<char>)> {
    seq![
        ("create_users_table"@, "000_schema.sql"@),
        ("create_user_profiles_table"@, "001_user_profiles.sql"@),
        ("create_transcriptions_table"@, "002_transcriptions.sql"@),
        ("create_terms_table"@, "003_terms.sql"@),
        ("create_hotkeys_table"@, "004_hotkeys.sql"@),
        ("drop_users_table"@, "005_drop_users.sql"@),
        ("add_user_preferred_microphone"@, "006_user_preferred_microphone.sql"@),
        ("add_user_play_interaction_chime"@, "007_user_interaction_chime.sql"@),
        ("add_transcription_audio_columns"@, "008_transcription_audio.sql"@),
        ("create_api_keys_table"@, "009_api_keys.sql"@),
        ("add_user_ai_preferences"@, "010_user_ai_preferences.sql"@),
        ("add_transcription_inference_metadata"@, "011_transcription_inference_metadata.sql"@),
        ("add_terms_is_replacement"@, "012_terms_is_replacement.sql"@),
        ("add_transcription_processing_metadata"@, "013_transcription_processing_metadata.sql"@),
        ("add_user_word_stats"@, "014_user_word_stats.sql"@),
        ("create_user_preferences"@, "015_user_preferences.sql"@),
        ("add_transcription_warnings"@, "016_transcription_warnings.sql"@),
        ("add_user_preferred_language"@, "017_user_preferred_language.sql"@),
        ("create_tones_table"@, "018_tones.sql"@),
        ("create_app_targets_table"@, "019_app_targets.sql"@),
        ("add_app_target_tone_id"@, "020_app_target_tone_id.sql"@),
        ("add_initial_tones_flag"@, "022_user_preferences_initial_tones.sql"@),
        ("add_app_target_icon_path"@, "023_app_target_icon_path.sql"@),
        ("cleanup_default_tones"@, "024_cleanup_default_tones.sql"@),
        ("add_user_preferences_device"@, "025_user_preferences_device.sql"@),
        ("add_api_key_model"@, "026_api_key_model.sql"@),
        ("add_user_preferences_ollama"@, "027_user_preferences_ollama.sql"@),
        ("add_user_has_finished_tutorial"@, "028_user_has_finished_tutorial.sql"@),
        ("add_user_preferences_got_started_at"@, "029_user_preferences_got_started_at.sql"@),
        ("add_gpu_enumeration_enabled"@, "030_gpu_enumeration_enabled.sql"@),
        ("add_paste_keybind"@, "031_paste_keybind.sql"@),
        ("add_app_target_paste_keybind"@, "032_app_target_paste_keybind.sql"@),
        ("add_transcription_timing_metrics"@, "033_transcription_timing_metrics.sql"@),
        ("add_api_key_openrouter_config"@, "034_api_key_openrouter_config.sql"@),
        ("add_api_key_base_url"@, "035_api_key_base_url.sql"@),
        ("add_api_key_azure_region"@, "036_api_key_azure_region.sql"@),
        ("add_agent_mode"@, "037_agent_mode.sql"@),
        ("add_last_seen_feature"@, "038_last_seen_feature.sql"@),
        ("add_is_enterprise"@, "039_is_enterprise.sql"@),
        ("add_language_switch"@, "040_language_switch.sql"@),
        ("move_microphone_to_preferences"@, "041_microphone_to_preferences.sql"@),
        ("add_user_cohort"@, "042_user_cohort.sql"@),
        ("add_ignore_update_dialog"@, "043_ignore_update_dialog.sql"@),
        ("add_user_company_title"@, "044_user_company_title.sql"@),
        ("add_incognito_mode"@, "045_incognito_mode.sql"@),
        ("add_dictation_pill_visibility"@, "046_dictation_pill_visibility.sql"@),
        ("add_transcription_sanitized_transcript"@, "047_transcription_sanitized_transcript.sql"@),
        ("add_user_styling_mode"@, "048_user_styling_mode.sql"@),
        ("add_user_selected_tone_id"@, "049_user_selected_tone_id.sql"@),
        ("add_user_active_tone_ids"@, "050_user_active_tone_ids.sql"@),
        ("add_additional_dictation_languages"@, "051_additional_dictation_languages.sql"@),
        ("add_use_new_backend"@, "052_use_new_backend.sql"@),
        ("add_openclaw_preferences"@, "053_openclaw_preferences.sql"@),
        ("add_user_streak"@, "054_user_streak.sql"@),
        ("add_user_referral_source"@, "055_user_referral_source.sql"@),
        ("add_api_key_include_v1_path"@, "056_api_key_include_v1_path.sql"@),
        ("add_realtime_output"@, "057_realtime_output.sql"@),
        ("add_remote_output_and_paired_devices"@, "058_remote_output_and_devices.sql"@),
        ("remote_output_and_devices_compatibility_noop"@, "059_remote_output_and_devices.sql"@),
        ("add_remote_receiver_port"@, "060_remote_receiver_port.sql"@),
        ("add_remote_receiver_auto_start"@, "061_remote_receiver_auto_start.sql"@),
        ("add_transcription_remote_status"@, "062_transcription_remote_status.sql"@),
        ("create_conversations_and_chat_messages_tables"@, "063_conversations_and_chat_messages.sql"@),
        ("add_dictation_audio_dim"@, "064_dictation_audio_dim.sql"@),
        ("add_dictation_limit_minutes"@, "065_dictation_limit_minutes.sql"@),
        ("add_menu_bar_icon_hidden"@, "066_menu_bar_icon_hidden.sql"@),
        ("add_transcription_contract_fields"@, "067_transcription_contract.sql"@)
    ]
}

/// The schema's history as the SQL plugin applies it: one step per entry of the history,
/// numbered from 1 in order.
pub fn migrations() -> (v: Vec<MigrationStep>)
    ensures
        v@.len() == migration_history().len(),
        forall|i: int| 0 <= i < v@.len() ==> {
            &&& #[trigger] v@[i].version == i + 1
            &&& v@[i].description@ == migration_history()[i].0
            &&& v@[i].sql_file@ == migration_history()[i].1
        },
{
    let mut v: Vec<MigrationStep> = Vec::new();
    v.push(MigrationStep { version: 1, description: "create_users_table", sql_file: "000_schema.sql" });
    v.push(MigrationStep { version: 2, description: "create_user_profiles_table", sql_file: "001_user_profiles.sql" });
    v.push(MigrationStep { version: 3, description: "create_transcriptions_table", sql_file: "002_transcriptions.sql" });
    v.push(MigrationStep { version: 4, description: "create_terms_table", sql_file: "003_terms.sql" });
    v.push(MigrationStep { version: 5, description: "create_hotkeys_table", sql_file: "004_hotkeys.sql" });
    v.push(MigrationStep { version: 6, description: "drop_users_table", sql_file: "005_drop_users.sql" });
    v.push(MigrationStep { version: 7, description: "add_user_preferred_microphone", sql_file: "006_user_preferred_microphone.sql" });
    v.push(MigrationStep { version: 8, description: "add_user_play_interaction_chime", sql_file: "007_user_interaction_chime.sql" });
    v.push(MigrationStep { version: 9, description: "add_transcription_audio_columns", sql_file: "008_transcription_audio.sql" });
    v.push(MigrationStep { version: 10, description: "create_api_keys_table", sql_file: "009_api_keys.sql" });
    v.push(MigrationStep { version: 11, description: "add_user_ai_preferences", sql_file: "010_user_ai_preferences.sql" });
    v.push(MigrationStep { version: 12, description: "add_transcription_inference_metadata", sql_file: "011_transcription_inference_metadata.sql" });
    v.push(MigrationStep { version: 13, description: "add_terms_is_replacement", sql_file: "012_terms_is_replacement.sql" });
    v.push(MigrationStep { version: 14, description: "add_transcription_processing_metadata", sql_file: "013_transcription_processing_metadata.sql" });
    v.push(MigrationStep { version: 15, description: "add_user_word_stats", sql_file: "014_user_word_stats.sql" });
    v.push(MigrationStep { version: 16, description: "create_user_preferences", sql_file: "015_user_preferences.sql" });
    v.push(MigrationStep { version: 17, description: "add_transcription_warnings", sql_file: "016_transcription_warnings.sql" });
    v.push(MigrationStep { version: 18, description: "add_user_preferred_language", sql_file: "017_user_preferred_language.sql" });
    v.push(MigrationStep { version: 19, description: "create_tones_table", sql_file: "018_tones.sql" });
    v.push(MigrationStep { version: 20, description: "create_app_targets_table", sql_file: "019_app_targets.sql" });
    v.push(MigrationStep { version: 21, description: "add_app_target_tone_id", sql_file: "020_app_target_tone_id.sql" });
    v.push(MigrationStep { version: 22, description: "add_initial_tones_flag", sql_file: "022_user_preferences_initial_tones.sql" });
    v.push(MigrationStep { version: 23, description: "add_app_target_icon_path", sql_file: "023_app_target_icon_path.sql" });
    v.push(MigrationStep { version: 24, description: "cleanup_default_tones", sql_file: "024_cleanup_default_tones.sql" });
    v.push(MigrationStep { version: 25, description: "add_user_preferences_device", sql_file: "025_user_preferences_device.sql" });
    v.push(MigrationStep { version: 26, description: "add_api_key_model", sql_file: "026_api_key_model.sql" });
    v.push(MigrationStep { version: 27, description: "add_user_preferences_ollama", sql_file: "027_user_preferences_ollama.sql" });
    v.push(MigrationStep { version: 28, description: "add_user_has_finished_tutorial", sql_file: "028_user_has_finished_tutorial.sql" });
    v.push(MigrationStep { version: 29, description: "add_user_preferences_got_started_at", sql_file: "029_user_preferences_got_started_at.sql" });
    v.push(MigrationStep { version: 30, description: "add_gpu_enumeration_enabled", sql_file: "030_gpu_enumeration_enabled.sql" });
    v.push(MigrationStep { version: 31, description: "add_paste_keybind", sql_file: "031_paste_keybind.sql" });
    v.push(MigrationStep { version: 32, description: "add_app_target_paste_keybind", sql_file: "032_app_target_paste_keybind.sql" });
    v.push(MigrationStep { version: 33, description: "add_transcription_timing_metrics", sql_file: "033_transcription_timing_metrics.sql" });
    v.push(MigrationStep { version: 34, description: "add_api_key_openrouter_config", sql_file: "034_api_key_openrouter_config.sql" });
    v.push(MigrationStep { version: 35, description: "add_api_key_base_url", sql_file: "035_api_key_base_url.sql" });
    v.push(MigrationStep { version: 36, description: "add_api_key_azure_region", sql_file: "036_api_key_azure_region.sql" });
    v.push(MigrationStep { version: 37, description: "add_agent_mode", sql_file: "037_agent_mode.sql" });
    v.push(MigrationStep { version: 38, description: "add_last_seen_feature", sql_file: "038_last_seen_feature.sql" });
    v.push(MigrationStep { version: 39, description: "add_is_enterprise", sql_file: "039_is_enterprise.sql" });
    v.push(MigrationStep { version: 40, description: "add_language_switch", sql_file: "040_language_switch.sql" });
    v.push(MigrationStep { version: 41, description: "move_microphone_to_preferences", sql_file: "041_microphone_to_preferences.sql" });
    v.push(MigrationStep { version: 42, description: "add_user_cohort", sql_file: "042_user_cohort.sql" });
    v.push(MigrationStep { version: 43, description: "add_ignore_update_dialog", sql_file: "043_ignore_update_dialog.sql" });
    v.push(MigrationStep { version: 44, description: "add_user_company_title", sql_file: "044_user_company_title.sql" });
    v.push(MigrationStep { version: 45, description: "add_incognito_mode", sql_file: "045_incognito_mode.sql" });
    v.push(MigrationStep { version: 46, description: "add_dictation_pill_visibility", sql_file: "046_dictation_pill_visibility.sql" });
    v.push(MigrationStep { version: 47, description: "add_transcription_sanitized_transcript", sql_file: "047_transcription_sanitized_transcript.sql" });
    v.push(MigrationStep { version: 48, description: "add_user_styling_mode", sql_file: "048_user_styling_mode.sql" });
    v.push(MigrationStep { version: 49, description: "add_user_selected_tone_id", sql_file: "049_user_selected_tone_id.sql" });
    v.push(MigrationStep { version: 50, description: "add_user_active_tone_ids", sql_file: "050_user_active_tone_ids.sql" });
    v.push(MigrationStep { version: 51, description: "add_additional_dictation_languages", sql_file: "051_additional_dictation_languages.sql" });
    v.push(MigrationStep { version: 52, description: "add_use_new_backend", sql_file: "052_use_new_backend.sql" });
    v.push(MigrationStep { version: 53, description: "add_openclaw_preferences", sql_file: "053_openclaw_preferences.sql" });
    v.push(MigrationStep { version: 54, description: "add_user_streak", sql_file: "054_user_streak.sql" });
    v.push(MigrationStep { version: 55, description: "add_user_referral_source", sql_file: "055_user_referral_source.sql" });
    v.push(MigrationStep { version: 56, description: "add_api_key_include_v1_path", sql_file: "056_api_key_include_v1_path.sql" });
    v.push(MigrationStep { version: 57, description: "add_realtime_output", sql_file: "057_realtime_output.sql" });
    v.push(MigrationStep { version: 58, description: "add_remote_output_and_paired_devices", sql_file: "058_remote_output_and_devices.sql" });
    v.push(MigrationStep { version: 59, description: "remote_output_and_devices_compatibility_noop", sql_file: "059_remote_output_and_devices.sql" });
    v.push(MigrationStep { version: 60, description: "add_remote_receiver_port", sql_file: "060_remote_receiver_port.sql" });
    v.push(MigrationStep { version: 61, description: "add_remote_receiver_auto_start", sql_file: "061_remote_receiver_auto_start.sql" });
    v.push(MigrationStep { version: 62, description: "add_transcription_remote_status", sql_file: "062_transcription_remote_status.sql" });
    v.push(MigrationStep { version: 63, description: "create_conversations_and_chat_messages_tables", sql_file: "063_conversations_and_chat_messages.sql" });
    v.push(MigrationStep { version: 64, description: "add_dictation_audio_dim", sql_file: "064_dictation_audio_dim.sql" });
    v.push(MigrationStep { version: 65, description: "add_dictation_limit_minutes", sql_file: "065_dictation_limit_minutes.sql" });
    v.push(MigrationStep { version: 66, description: "add_menu_bar_icon_hidden", sql_file: "066_menu_bar_icon_hidden.sql" });
    v.push(MigrationStep { version: 67, description: "add_transcription_contract_fields", sql_file: "067_transcription_contract.sql" });
    v
}

/// The steps run in increasing version order, no version twice: the order in which the
/// plugin applies them is the order of the history.
pub proof fn lemma_migration_versions_increase(v: Seq<MigrationStep>)
    requires
        forall|i: int| 0 <= i < v.len() ==> #[trigger] v[i].version == i + 1,
    ensures
        forall|i: int, j: int| 0 <= i < j < v.len() ==> v[i].version < v[j].version,
{
}

} // verus!
