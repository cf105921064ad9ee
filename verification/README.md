# themefox-manager

Installs Firefox themes from themefox.net or from a git repository, removes
them, and sets up the native-messaging helper that the Themefox browser addon
talks to.

- `src/` is the verified library. Every decision the program takes and every
  piece of text it builds or reads is computed there, with a contract:
  - `cli`: the command-line argument, theme addresses, clone paths;
  - `release`: the theme server's JSON listing and the download address;
  - `plan`: platforms, modes, and the steps of an install or a removal, and
    where the Firefox folder is;
  - `profile`: the default profile from `installs.ini`/`profiles.ini`, the
    profiles to choose from, the `chrome` folder;
  - `css`: turning on user stylesheets in `user.js`;
  - `theme_search`: finding the theme folder in a cloned repository;
  - `setup`: the addon helper's manifest and download;
  - `native_host`, `frame`: the native-messaging protocol;
  - `json`: serde_json and UTF-8 decoding behind trusted wrappers;
  - `text`, `order`, `number`: text models, sorting, decimal text.
- `app/` is the program around it: the command line (clap), prompts
  (dialoguer), colours, files, downloads and processes. Run under the name
  `stdin-themefox-manager` it is the native-messaging helper.
- `tests/` exercises the library on concrete values.
